//! The backend built on the `fastrand` generator.

use crate::source::{Draw, RandomSource};
use crate::trial::{run_benchmark, Backend, BenchmarkReport};
use vstd::prelude::*;

verus! {

/// The generator of the `fastrand` crate. Its state is the crate's business.
#[verifier::external_type_specification]
#[verifier::external_body]
pub struct ExFastrandRng(fastrand::Rng);

/// `fastrand::Rng::new` makes a generator seeded from the thread's own
/// generator, or from a fixed seed where that one is out of reach. Nothing is
/// claimed of the generator it makes.
pub assume_specification[ fastrand::Rng::new ]() -> (rng: fastrand::Rng)
;

/// `fastrand::Rng::usize` on the range from zero up to, and not including,
/// `bound`. The crate panics on an empty range, which the precondition rules
/// out; for any other range it returns a value inside it.
#[verifier::external_body]
fn usize_below(rng: &mut fastrand::Rng, bound: usize) -> (index: usize)
    requires
        bound > 0,
    ensures
        index < bound,
{
    rng.usize(0..bound)
}

/// A random source that samples from a `fastrand` generator.
pub struct FastSource {
    rng: fastrand::Rng,
    log: Ghost<Seq<Draw>>,
}

impl FastSource {
    /// Makes a freshly seeded source that has drawn nothing yet.
    pub fn new() -> (source: Self)
        ensures
            source.draws() == Seq::<Draw>::empty(),
    {
        FastSource::from_rng(fastrand::Rng::new())
    }

    /// Makes a source that continues `rng` and has drawn nothing yet.
    pub fn from_rng(rng: fastrand::Rng) -> (source: Self)
        ensures
            source.generator() == rng,
            source.draws() == Seq::<Draw>::empty(),
    {
        FastSource { rng, log: Ghost(Seq::empty()) }
    }

    /// The generator this source samples from, in the state it is in now.
    pub closed spec fn generator(&self) -> fastrand::Rng {
        self.rng
    }
}

impl RandomSource for FastSource {
    closed spec fn draws(&self) -> Seq<Draw> {
        self.log@
    }

    fn sample_index(&mut self, bound: usize) -> (index: usize) {
        let index = usize_below(&mut self.rng, bound);
        proof {
            self.log@ = self.log@.push(Draw { bound, index });
        }
        index
    }
}

/// Benchmarks the `fastrand` generator: seeds one source and runs every trial
/// of the workload on it.
pub fn benchmark() -> (report: BenchmarkReport)
    ensures
        report.backend == Backend::Fast,
        report.covers_workload(),
{
    let mut rng = FastSource::new();
    run_benchmark(Backend::Fast, &mut rng)
}

} // verus!
