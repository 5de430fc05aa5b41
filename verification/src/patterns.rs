use vstd::prelude::*;
use crate::config::MemoryTester;
use crate::hammer::{ProgressMark, TestRun};

verus! {

/// The number of fill patterns a run tests, one after the other.
pub const PATTERN_COUNT: usize = 4;

/// Checkerboard progress is reported at every this many passes.
pub const CHECKERBOARD_REPORT_EVERY: usize = 100;

/// The fill pattern with number `pattern_id`: alternating bits starting with
/// one, alternating bits starting with zero, all ones, all zeros.
pub open spec fn pattern_spec(pattern_id: int) -> u64 {
    if pattern_id == 0 {
        0xAAAAAAAAAAAAAAAAu64
    } else if pattern_id == 1 {
        0x5555555555555555u64
    } else if pattern_id == 2 {
        0xFFFFFFFFFFFFFFFFu64
    } else {
        0x0000000000000000u64
    }
}

/// The fill pattern with number `pattern_id`.
pub fn pattern(pattern_id: usize) -> (p: u64)
    requires
        pattern_id < PATTERN_COUNT,
    ensures
        p == pattern_spec(pattern_id as int),
{
    if pattern_id == 0 {
        0xAAAAAAAAAAAAAAAA
    } else if pattern_id == 1 {
        0x5555555555555555
    } else if pattern_id == 2 {
        0xFFFFFFFFFFFFFFFF
    } else {
        0x0000000000000000
    }
}

/// The word that checkerboard pass number `pass` starts its rows with.
pub open spec fn checkerboard_base(pass: int) -> u64 {
    if pass % 2 == 0 {
        pattern_spec(0)
    } else {
        pattern_spec(1)
    }
}

/// `n` words alternating between `base` and its complement, `base` first.
pub open spec fn checkerboard_fill(n: int, base: u64) -> Seq<u64> {
    Seq::new(n as nat, |i: int| if i % 2 == 0 { base } else { !base })
}

/// The buffer after `h` checkerboard passes: the last pass's fill, or the
/// buffer untouched when there is none.
pub open spec fn checkerboarded(mem: Seq<u64>, h: int) -> Seq<u64> {
    if h == 0 {
        mem
    } else {
        checkerboard_fill(mem.len() as int, checkerboard_base(h - 1))
    }
}

/// The progress marks of the first `done` of `h` checkerboard passes: one at
/// every pass whose number is a multiple of `CHECKERBOARD_REPORT_EVERY`, pass
/// zero included.
pub open spec fn checkerboard_marks(verbose: bool, done: int, h: int) -> Seq<ProgressMark> {
    if verbose {
        Seq::new(
            ((done + CHECKERBOARD_REPORT_EVERY - 1) / (CHECKERBOARD_REPORT_EVERY as int)) as nat,
            |k: int| ProgressMark {
                position: (k * CHECKERBOARD_REPORT_EVERY) as usize,
                total: h as usize,
                count: (k * CHECKERBOARD_REPORT_EVERY) as usize,
            },
        )
    } else {
        Seq::empty()
    }
}

impl MemoryTester {
    /// Writes `hammer_count` alternating checkerboards over the buffer, the
    /// even passes starting from `0xAAAA...`, the odd ones from `0x5555...`.
    pub fn test_checkerboard(&self, memory: &mut [u64]) -> (run: TestRun)
        requires
            old(memory)@.len() * self.hammer_count <= usize::MAX,
        ensures
            run.tests == old(memory)@.len() * self.hammer_count,
            run.progress@ == checkerboard_marks(self.verbose, self.hammer_count as int, self.hammer_count as int),
            final(memory)@ == checkerboarded(old(memory)@, self.hammer_count as int),
    {
        let n = memory.len();
        let h = self.hammer_count;
        let verbose = self.verbose;
        let ghost orig = memory@;
        let mut progress: Vec<ProgressMark> = Vec::new();
        let mut pass: usize = 0;
        while pass < h
            invariant
                n == memory@.len(),
                n == orig.len(),
                pass <= h,
                memory@ == checkerboarded(orig, pass as int),
                progress@ == checkerboard_marks(verbose, pass as int, h as int),
            decreases h - pass,
        {
            let base: u64 = if pass % 2 == 0 {
                pattern(0)
            } else {
                pattern(1)
            };
            let ghost before = memory@;
            let mut i: usize = 0;
            while i < n
                invariant
                    n == memory@.len(),
                    n == before.len(),
                    i <= n,
                    base == checkerboard_base(pass as int),
                    forall|j: int| 0 <= j < i ==> memory@[j] == checkerboard_fill(n as int, base)[j],
                    forall|j: int| i <= j < n ==> memory@[j] == before[j],
                decreases n - i,
            {
                memory[i] = if i % 2 == 0 {
                    base
                } else {
                    !base
                };
                i = i + 1;
            }
            assert(memory@ =~= checkerboarded(orig, pass + 1));
            proof {
                let p = pass as int;
                if p % 100 == 0 {
                    assert((p + 100) / 100 == (p + 99) / 100 + 1);
                    assert((p + 99) / 100 == p / 100);
                    assert((p / 100) * 100 == p);
                } else {
                    assert((p + 100) / 100 == (p + 99) / 100);
                }
            }
            if verbose && pass % CHECKERBOARD_REPORT_EVERY == 0 {
                progress.push(ProgressMark { position: pass, total: h, count: pass });
            }
            pass = pass + 1;
            assert(progress@ =~= checkerboard_marks(verbose, pass as int, h as int));
        }
        TestRun { tests: n * h, progress }
    }
}

} // verus!
