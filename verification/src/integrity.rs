use vstd::prelude::*;
use crate::buffer::uniform;
use crate::config::MemoryTester;

verus! {

/// At most this many mismatches are recorded per check.
pub const MAX_RECORDED_ERRORS: usize = 10_000;

/// A word that did not hold what was written to it.
#[derive(Clone, Copy, Debug, PartialEq, Eq, Structural)]
pub struct ErrorLocation {
    pub index: usize,
    pub expected: u64,
    pub actual: u64,
    pub pattern_id: usize,
}

/// The indices below `upto` of the words of `mem` that differ from the
/// words of `expected` at the same index, in increasing order.
pub open spec fn mismatches_below(mem: Seq<u64>, expected: Seq<u64>, upto: int) -> Seq<int>
    decreases upto,
{
    if upto <= 0 {
        Seq::empty()
    } else {
        let earlier = mismatches_below(mem, expected, upto - 1);
        if mem[upto - 1] != expected[upto - 1] {
            earlier.push(upto - 1)
        } else {
            earlier
        }
    }
}

/// The indices of all the words of `mem` that differ from `expected`.
pub open spec fn mismatches(mem: Seq<u64>, expected: Seq<u64>) -> Seq<int> {
    mismatches_below(mem, expected, mem.len() as int)
}

/// The record of the mismatch at index `index`.
pub open spec fn error_at(mem: Seq<u64>, expected: Seq<u64>, pattern_id: usize, index: int) -> ErrorLocation {
    ErrorLocation { index: index as usize, expected: expected[index], actual: mem[index], pattern_id }
}

/// What a check records: the first `MAX_RECORDED_ERRORS` mismatches between
/// the buffer `mem` and the words `expected` that were written to it.
pub open spec fn recorded_errors(mem: Seq<u64>, expected: Seq<u64>, pattern_id: usize) -> Seq<ErrorLocation> {
    let all = mismatches(mem, expected);
    let kept = if all.len() < MAX_RECORDED_ERRORS { all.len() as int } else { MAX_RECORDED_ERRORS as int };
    Seq::new(kept as nat, |k: int| error_at(mem, expected, pattern_id, all[k]))
}

/// The mismatches below `a` are the first ones of those below `b`.
pub proof fn lemma_mismatches_prefix(mem: Seq<u64>, expected: Seq<u64>, a: int, b: int)
    requires
        0 <= a <= b,
    ensures
        mismatches_below(mem, expected, a).len() <= mismatches_below(mem, expected, b).len(),
        forall|k: int|
            0 <= k < mismatches_below(mem, expected, a).len() ==> #[trigger] mismatches_below(
                mem,
                expected,
                a,
            )[k] == mismatches_below(mem, expected, b)[k],
    decreases b - a,
{
    if a < b {
        lemma_mismatches_prefix(mem, expected, a, b - 1);
    }
}

/// The recorded mismatches below `upto` are exactly the indices below `upto`
/// of the words that differ from what was expected there, in strictly
/// increasing order.
pub proof fn lemma_mismatches_exact(mem: Seq<u64>, expected: Seq<u64>, upto: int)
    requires
        0 <= upto <= mem.len(),
        upto <= expected.len(),
    ensures
        forall|k: int|
            0 <= k < mismatches_below(mem, expected, upto).len() ==> {
                let j = #[trigger] mismatches_below(mem, expected, upto)[k];
                0 <= j < upto && mem[j] != expected[j]
            },
        forall|k1: int, k2: int|
            0 <= k1 < k2 < mismatches_below(mem, expected, upto).len() ==> #[trigger] mismatches_below(
                mem,
                expected,
                upto,
            )[k1] < #[trigger] mismatches_below(mem, expected, upto)[k2],
        forall|j: int|
            0 <= j < upto && mem[j] != expected[j] ==> #[trigger] mismatches_below(
                mem,
                expected,
                upto,
            ).contains(j),
    decreases upto,
{
    if upto > 0 {
        lemma_mismatches_exact(mem, expected, upto - 1);
        let earlier = mismatches_below(mem, expected, upto - 1);
        let now = mismatches_below(mem, expected, upto);
        assert forall|j: int| 0 <= j < upto && mem[j] != expected[j] implies #[trigger] now.contains(j) by {
            if j < upto - 1 {
                assert(earlier.contains(j));
                let k = choose|k: int| 0 <= k < earlier.len() && earlier[k] == j;
                assert(now[k] == j);
            } else {
                assert(now[now.len() - 1] == j);
            }
        }
    }
}

impl MemoryTester {
    /// Records, in order of index, the words of `memory` that differ from
    /// `expected`, stopping after `MAX_RECORDED_ERRORS` of them.
    pub fn check_integrity(&self, memory: &[u64], expected: u64, pattern_id: usize) -> (errors: Vec<ErrorLocation>)
        ensures
            errors@ == recorded_errors(memory@, uniform(memory@.len() as int, expected), pattern_id),
    {
        let n = memory.len();
        let ghost exp = uniform(n as int, expected);
        let mut errors: Vec<ErrorLocation> = Vec::new();
        let mut i: usize = 0;
        while i < n
            invariant_except_break
                n == memory@.len(),
                exp == uniform(n as int, expected),
                i <= n,
                errors@.len() < MAX_RECORDED_ERRORS,
                errors@.len() == mismatches_below(memory@, exp, i as int).len(),
                forall|k: int|
                    0 <= k < errors@.len() ==> #[trigger] errors@[k] == error_at(
                        memory@,
                        exp,
                        pattern_id,
                        mismatches_below(memory@, exp, i as int)[k],
                    ),
            ensures
                errors@ == recorded_errors(memory@, exp, pattern_id),
            decreases n - i,
        {
            let v = memory[i];
            if v != expected {
                errors.push(ErrorLocation { index: i, expected, actual: v, pattern_id });
                if errors.len() >= MAX_RECORDED_ERRORS {
                    proof {
                        let below = mismatches_below(memory@, exp, i + 1);
                        assert(below == mismatches_below(memory@, exp, i as int).push(i as int));
                        lemma_mismatches_prefix(memory@, exp, i + 1, n as int);
                        assert(below.len() == MAX_RECORDED_ERRORS);
                        assert forall|k: int| 0 <= k < errors@.len() implies errors@[k] == error_at(
                            memory@,
                            exp,
                            pattern_id,
                            below[k],
                        ) by {}
                        assert(errors@ =~= recorded_errors(memory@, exp, pattern_id));
                    }
                    break;
                }
            }
            i = i + 1;
        }
        proof {
            if i >= n {
                assert(errors@ =~= recorded_errors(memory@, exp, pattern_id));
            }
        }
        errors
    }
}

} // verus!
