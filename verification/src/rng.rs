use vstd::prelude::*;
use rand::rngs::StdRng;
use rand::{Rng, SeedableRng};

verus! {

/// rand's seedable standard generator, carried as an opaque value.
#[verifier::external_type_specification]
#[verifier::external_body]
pub struct ExStdRng(StdRng);

/// A generator together with a record of the seed it was built from and of
/// every draw made from it, in order: the end of the range `0..len` it was
/// drawn from, and the index it gave. Only the functions of this module
/// build or change one.
pub struct SeededRng {
    rng: StdRng,
    seed: Ghost<u64>,
    ranges: Ghost<Seq<usize>>,
    draws: Ghost<Seq<usize>>,
}

impl SeededRng {
    /// The seed the generator was built from.
    pub closed spec fn seed(&self) -> u64 {
        self.seed@
    }

    /// The end of the range of each draw so far, in order.
    pub closed spec fn ranges(&self) -> Seq<usize> {
        self.ranges@
    }

    /// The index each draw so far gave, in order.
    pub closed spec fn draws(&self) -> Seq<usize> {
        self.draws@
    }
}

/// Builds a generator with `SeedableRng::seed_from_u64(seed)` and records
/// `seed` beside it, with no draw yet. Nothing is stated of what the
/// generator will draw.
#[verifier::external_body]
pub(crate) fn seeded_rng(seed: u64) -> (r: SeededRng)
    ensures
        r.seed() == seed,
        r.ranges() == Seq::<usize>::empty(),
        r.draws() == Seq::<usize>::empty(),
{
    SeededRng {
        rng: StdRng::seed_from_u64(seed),
        seed: Ghost(seed),
        ranges: Ghost(Seq::empty()),
        draws: Ghost(Seq::empty()),
    }
}

/// Draws an index from `0..len` with `Rng::gen_range`, which rand documents
/// as returning a value of the range and panicking only on an empty range,
/// and records the range and the index. Which index comes out is not
/// stated; the generator stays the one built from the same seed.
#[verifier::external_body]
pub(crate) fn random_index(rng: &mut SeededRng, len: usize) -> (idx: usize)
    requires
        len > 0,
    ensures
        idx < len,
        final(rng).seed() == old(rng).seed(),
        final(rng).ranges() == old(rng).ranges().push(len),
        final(rng).draws() == old(rng).draws().push(idx),
{
    let idx = rng.rng.gen_range(0..len);
    rng.ranges = Ghost(rng.ranges@.push(len));
    rng.draws = Ghost(rng.draws@.push(idx));
    idx
}

} // verus!
