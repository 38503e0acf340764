//! The one capability the workload asks of a random number generator.

use vstd::prelude::*;

verus! {

/// One draw from a random source: the bound that was asked for and the index
/// that came back.
pub struct Draw {
    pub bound: usize,
    pub index: usize,
}

/// A supply of random choices among equally likely outcomes.
///
/// The workload asks a source for one thing only: an index below a bound.
/// Every generator that is benchmarked implements this trait, and the rest of
/// the library is written once against it.
pub trait RandomSource {
    /// Every draw this source has made, oldest first.
    ///
    /// The log exists in contracts alone: it lets a caller say which draws a
    /// value was built from, what was asked of the source, and how far it
    /// has advanced.
    spec fn draws(&self) -> Seq<Draw>;

    /// Samples one index from `0..bound`.
    fn sample_index(&mut self, bound: usize) -> (index: usize)
        requires
            bound > 0,
        ensures
            index < bound,
            final(self).draws() == old(self).draws().push((Draw { bound, index })),
    ;
}

/// The draws that `after` holds beyond the first `before.len()`.
pub open spec fn fresh_draws(before: Seq<Draw>, after: Seq<Draw>) -> Seq<Draw> {
    after.subrange(before.len() as int, after.len() as int)
}

/// `after` is `before` followed by exactly `count` draws, each asked for with
/// `bound` and answered below it.
pub open spec fn advanced_by(
    before: Seq<Draw>,
    after: Seq<Draw>,
    count: nat,
    bound: nat,
) -> bool {
    &&& after.len() == before.len() + count
    &&& after.subrange(0, before.len() as int) == before
    &&& forall|i: int|
        before.len() <= i < after.len() ==> (#[trigger] after[i]).bound == bound && after[i].index
            < bound
}

/// Advancing twice is advancing once by the sum, and the fresh draws of the
/// whole are those of the first step followed by those of the second.
pub proof fn lemma_advanced_by_chain(
    first: Seq<Draw>,
    second: Seq<Draw>,
    third: Seq<Draw>,
    count_a: nat,
    count_b: nat,
    bound: nat,
)
    requires
        advanced_by(first, second, count_a, bound),
        advanced_by(second, third, count_b, bound),
    ensures
        advanced_by(first, third, count_a + count_b, bound),
        fresh_draws(first, third) == fresh_draws(first, second) + fresh_draws(second, third),
{
    assert(third.subrange(0, first.len() as int) =~= third.subrange(0, second.len() as int).subrange(
        0,
        first.len() as int,
    ));
    assert forall|i: int| first.len() <= i < third.len() implies (#[trigger] third[i]).bound
        == bound && third[i].index < bound by {
        if i < second.len() {
            assert(third[i] == third.subrange(0, second.len() as int)[i]);
            assert(second[i].index < bound);
        }
    }
    assert(fresh_draws(first, third) =~= fresh_draws(first, second) + fresh_draws(second, third))
        by {
        assert forall|i: int| 0 <= i < count_a implies fresh_draws(first, third)[i] == fresh_draws(
            first,
            second,
        )[i] by {
            assert(third[first.len() + i] == third.subrange(0, second.len() as int)[first.len()
                + i]);
        }
    }
}

} // verus!
