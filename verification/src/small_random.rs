//! The backend built on the small generator of the `rand` crate.

use crate::source::{Draw, RandomSource};
use crate::trial::{run_benchmark, Backend, BenchmarkReport};
use rand::rngs::SmallRng;
use rand::Rng;
use vstd::prelude::*;

verus! {

/// The small, fast generator of the `rand` crate. Its state is the crate's
/// business.
#[verifier::external_type_specification]
#[verifier::external_body]
pub struct ExSmallRng(rand::rngs::SmallRng);

/// The error of the `rand` crate.
#[verifier::external_type_specification]
#[verifier::external_body]
pub struct ExRandError(rand::Error);

/// `Rng::gen_range` on the range from zero up to, and not including, `bound`.
/// The crate panics on an empty range, which the precondition rules out; for
/// any other range it returns a value inside it.
#[verifier::external_body]
fn index_below(rng: &mut SmallRng, bound: usize) -> (index: usize)
    requires
        bound > 0,
    ensures
        index < bound,
{
    rng.gen_range(0..bound)
}

/// Why a source could not be made.
#[derive(Clone, Copy, Debug, PartialEq, Eq, Structural)]
pub enum SourceError {
    /// The generator that was to supply the seed failed to supply it.
    SeedingFailed,
}

/// A random source that samples from the small generator of `rand`.
///
/// Seeding a generator takes entropy from outside the program, so it is the
/// caller's to do: a source is made of a generator that is already seeded, or
/// of the outcome of an attempt to seed one.
pub struct SmallSource {
    rng: SmallRng,
    log: Ghost<Seq<Draw>>,
}

impl SmallSource {
    /// Makes a source of the outcome of seeding a generator: a source that
    /// continues the generator and has drawn nothing yet where one came of
    /// it, and `SeedingFailed` where none did.
    pub fn from_seeding(seeded: Result<SmallRng, rand::Error>) -> (source: Result<Self, SourceError>)
        ensures
            seeded is Ok <==> source is Ok,
            source matches Ok(made) ==> made.generator() == seeded->Ok_0,
            source matches Ok(made) ==> made.draws() == Seq::<Draw>::empty(),
            source matches Err(error) ==> error == SourceError::SeedingFailed,
    {
        match seeded {
            Ok(rng) => Ok(SmallSource::from_rng(rng)),
            Err(_) => Err(SourceError::SeedingFailed),
        }
    }

    /// Makes a source that continues `rng`, from the state it is handed over
    /// in, and has drawn nothing yet.
    pub fn from_rng(rng: SmallRng) -> (source: Self)
        ensures
            source.generator() == rng,
            source.draws() == Seq::<Draw>::empty(),
    {
        SmallSource { rng, log: Ghost(Seq::empty()) }
    }

    /// The generator this source samples from, in the state it is in now.
    pub closed spec fn generator(&self) -> SmallRng {
        self.rng
    }
}

impl RandomSource for SmallSource {
    closed spec fn draws(&self) -> Seq<Draw> {
        self.log@
    }

    fn sample_index(&mut self, bound: usize) -> (index: usize) {
        let index = index_below(&mut self.rng, bound);
        proof {
            self.log@ = self.log@.push(Draw { bound, index });
        }
        index
    }
}

/// Benchmarks the small generator of `rand` on the outcome of seeding one:
/// runs every trial of the workload where a generator came of it, and gives
/// `SeedingFailed`, before any trial, where none did.
pub fn benchmark(seeded: Result<SmallRng, rand::Error>) -> (report: Result<
    BenchmarkReport,
    SourceError,
>)
    ensures
        seeded is Ok <==> report is Ok,
        report matches Ok(found) ==> found.backend == Backend::Small && found.covers_workload(),
        report matches Err(error) ==> error == SourceError::SeedingFailed,
{
    match SmallSource::from_seeding(seeded) {
        Ok(mut rng) => Ok(run_benchmark(Backend::Small, &mut rng)),
        Err(error) => Err(error),
    }
}

} // verus!
