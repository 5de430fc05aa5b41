use vstd::prelude::*;
use std::collections::HashMap;
use crate::arith::{add_wrapped, lemma_add_wrapped_twice, lemma_add_wrapped_zero, lemma_wrapping_increment};
use crate::config::MemoryTester;
use crate::hammer::{marks_below, ProgressMark, TestRun};
use crate::rng::{random_index, seeded_rng, SeededRng};

verus! {

broadcast use vstd::std_specs::hash::group_hash_axioms;

/// Random-mode progress is reported at every this many operations.
pub const RANDOM_REPORT_EVERY: usize = 10_000;

/// Random accesses per hammer count, before the cap of twice the buffer.
pub const RANDOM_OPS_PER_HAMMER: usize = 10_000;

/// How many random accesses a run makes on a buffer of `n` words:
/// `hammer_count * 10000`, saturated at `usize::MAX`, capped at `2n`.
pub open spec fn random_ops(hammer_count: usize, n: int) -> int {
    let wanted: int = if hammer_count * RANDOM_OPS_PER_HAMMER > usize::MAX {
        usize::MAX as int
    } else {
        hammer_count * RANDOM_OPS_PER_HAMMER
    };
    if wanted < 2 * n {
        wanted
    } else {
        2 * n
    }
}

/// How often `hits` says word `j` was picked.
pub open spec fn hit_count(hits: Map<usize, u64>, j: int) -> int {
    if 0 <= j <= usize::MAX && hits.contains_key(j as usize) {
        hits[j as usize] as int
    } else {
        0
    }
}

/// The buffer after word `j` was incremented `hit_count(hits, j)` times.
pub open spec fn counted_hits(mem: Seq<u64>, hits: Map<usize, u64>) -> Seq<u64> {
    Seq::new(mem.len(), |j: int| add_wrapped(mem[j], hit_count(hits, j)))
}

/// Every position of `picks` lies in `0..n`.
pub open spec fn picks_within(picks: Seq<usize>, n: int) -> bool {
    forall|k: int| 0 <= k < picks.len() ==> #[trigger] picks[k] < n
}

/// `hits` counts, for every word below `n`, how often it occurs in `picks`,
/// and names no word at or beyond `n`.
pub open spec fn hits_count_picks(hits: Map<usize, u64>, picks: Seq<usize>, n: int) -> bool {
    &&& forall|j: usize| j < n ==> #[trigger] picks.to_multiset().count(j) == hit_count(hits, j as int)
    &&& forall|k: usize| #[trigger] hits.contains_key(k) ==> k < n
}

/// What a generator drew for `tests` random operations on `n` words, seeded
/// with `seed`: one draw per operation, each from `0..n`, counted in `hits`.
pub open spec fn drawn_for(g: SeededRng, seed: u64, tests: int, n: int, hits: Map<usize, u64>) -> bool {
    &&& g.seed() == seed
    &&& g.ranges() == Seq::new(tests as nat, |k: int| n as usize)
    &&& g.draws().len() == tests
    &&& picks_within(g.draws(), n)
    &&& hits_count_picks(hits, g.draws(), n)
}

/// What the random pattern did: its tests and progress, how often it picked
/// each word, and the generator that drew the picks, with its record.
pub struct RandomRun {
    pub run: TestRun,
    pub hits: HashMap<usize, u64>,
    pub rng: SeededRng,
}

impl MemoryTester {
    /// Increments randomly chosen words, `random_ops` of them, drawn by a
    /// generator seeded with `rng_seed`, and counts how often each was picked.
    pub fn test_random(&self, memory: &mut [u64]) -> (r: RandomRun)
        requires
            old(memory)@.len() <= usize::MAX / 2,
        ensures
            r.run.tests == random_ops(self.hammer_count, old(memory)@.len() as int),
            r.run.progress@ == marks_below(self.verbose, r.run.tests as int, RANDOM_REPORT_EVERY as int),
            drawn_for(r.rng, self.rng_seed, r.run.tests as int, old(memory)@.len() as int, r.hits@),
            final(memory)@ == counted_hits(old(memory)@, r.hits@),
            r.rng.seed() == self.rng_seed,
            r.rng.ranges().len() == r.run.tests,
            forall|k: int| 0 <= k < r.run.tests ==> r.rng.ranges()[k] == old(memory)@.len(),
            r.rng.draws().len() == r.run.tests,
            forall|k: int| 0 <= k < r.run.tests ==> r.rng.draws()[k] < old(memory)@.len(),
    {
        let n = memory.len();
        let verbose = self.verbose;
        let mut rng = seeded_rng(self.rng_seed);
        let wanted: usize = match self.hammer_count.checked_mul(RANDOM_OPS_PER_HAMMER) {
            Some(w) => w,
            None => usize::MAX,
        };
        let twice: usize = n * 2;
        let num_ops: usize = if wanted < twice {
            wanted
        } else {
            twice
        };
        let ghost orig = memory@;
        let mut hits: HashMap<usize, u64> = HashMap::new();
        let mut progress: Vec<ProgressMark> = Vec::new();
        proof {
            rng.draws().to_multiset_ensures();
            assert(rng.ranges() =~= Seq::new(0, |k: int| n));
            assert forall|j: int| 0 <= j < n implies memory@[j] == counted_hits(orig, hits@)[j] by {
                lemma_add_wrapped_zero(orig[j]);
            }
            assert(memory@ =~= counted_hits(orig, hits@));
        }
        let mut i: usize = 0;
        while i < num_ops
            invariant
                n == memory@.len(),
                n == orig.len(),
                i <= num_ops,
                num_ops <= 2 * n,
                rng.seed() == self.rng_seed,
                rng.ranges() == Seq::new(i as nat, |k: int| n),
                rng.draws().len() == i,
                picks_within(rng.draws(), n as int),
                hits_count_picks(hits@, rng.draws(), n as int),
                forall|j: int| 0 <= j < n ==> #[trigger] hit_count(hits@, j) <= i,
                memory@ == counted_hits(orig, hits@),
                progress@ == periodic_marks_below(verbose, i as int, num_ops as int),
            decreases num_ops - i,
        {
            let ghost picks = rng.draws();
            let idx = random_index(&mut rng, n);
            let count: u64 = match hits.get(&idx) {
                Some(c) => *c,
                None => 0,
            };
            assert(count == hit_count(hits@, idx as int));
            assert(hit_count(hits@, idx as int) <= i);
            let v = memory[idx];
            proof {
                lemma_wrapping_increment(v);
                lemma_add_wrapped_twice(orig[idx as int], count as int, 1);
            }
            memory[idx] = v.wrapping_add(1);
            let ghost old_hits = hits@;
            hits.insert(idx, count + 1);
            proof {
                let next = rng.draws();
                assert(next == picks.push(idx));
                picks.to_multiset_ensures();
                next.to_multiset_ensures();
                assert(next.to_multiset() =~= picks.to_multiset().insert(idx));
                assert forall|j: usize| j < n implies #[trigger] next.to_multiset().count(j) == hit_count(
                    hits@,
                    j as int,
                ) by {
                    assert(picks.to_multiset().count(j) == hit_count(old_hits, j as int));
                }
                assert(memory@ =~= counted_hits(orig, hits@));
                assert forall|j: int| 0 <= j < n implies #[trigger] hit_count(hits@, j) <= i + 1 by {
                    assert(hit_count(old_hits, j) <= i);
                }
            }
            if verbose && i % RANDOM_REPORT_EVERY == 0 && i > 0 {
                progress.push(ProgressMark { position: i, total: num_ops, count: i });
            }
            assert(progress@ =~= periodic_marks_below(verbose, i + 1, num_ops as int));
            assert(rng.ranges() =~= Seq::new((i + 1) as nat, |k: int| n));
            i = i + 1;
        }
        RandomRun { run: TestRun { tests: num_ops, progress }, hits, rng }
    }
}

/// The marks of the first `done` of `total` random operations.
pub open spec fn periodic_marks_below(verbose: bool, done: int, total: int) -> Seq<ProgressMark> {
    crate::hammer::periodic_marks(
        verbose,
        if done > 0 { done - 1 } else { 0 },
        RANDOM_REPORT_EVERY as int,
        1,
        total,
    )
}

} // verus!
