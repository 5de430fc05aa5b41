use vstd::prelude::*;
use crate::arith::{add_wrapped, lemma_add_wrapped_twice, lemma_multiple_shift, lemma_multiples_gap, lemma_wrapping_increment};
use crate::buffer::WORD_BYTES;
use crate::config::{ConfigError, MemoryTester, TestError};

verus! {

/// A point at which a verbose run reports its progress: `position` out of
/// `total`, after `count` units of work.
#[derive(Clone, Copy, Debug, PartialEq, Eq, Structural)]
pub struct ProgressMark {
    pub position: usize,
    pub total: usize,
    pub count: usize,
}

/// What one access pattern did: how many tests it counts, and the progress
/// points that it reports.
pub struct TestRun {
    pub tests: usize,
    pub progress: Vec<ProgressMark>,
}

/// Rowhammer progress is reported after every this many hammered rows.
pub const ROWHAMMER_REPORT_EVERY: usize = 1000;

/// Sequential progress is reported at every this many words.
pub const SEQUENTIAL_REPORT_EVERY: usize = 100_000;

/// The distance, in words, between a hammered row and its two neighbours.
pub open spec fn rowhammer_elem_step(step_size: usize) -> int {
    if step_size % WORD_BYTES == 0 {
        (step_size / WORD_BYTES) as int
    } else {
        1
    }
}

/// Whether rowhammer refuses a buffer of `n` words.
pub open spec fn rowhammer_refuses(step_size: usize, n: int) -> bool {
    rowhammer_elem_step(step_size) == 0 || rowhammer_elem_step(step_size) >= n / 2
}

/// How many times the rows centred at `s`, `2s`, ... below `n - s` touch word `j`:
/// once as the row before a centre, once as the row after one.
pub open spec fn rowhammer_hits(j: int, s: int, n: int) -> int {
    if j % s == 0 {
        (if j + 2 * s < n { 1int } else { 0int }) + (if 2 * s <= j { 1int } else { 0int })
    } else {
        0
    }
}

/// The buffer after hammering every centre `h` times with distance `s`.
pub open spec fn rowhammered(mem: Seq<u64>, s: int, h: int) -> Seq<u64> {
    Seq::new(mem.len(), |j: int| add_wrapped(mem[j], h * rowhammer_hits(j, s, mem.len() as int)))
}

/// The number of centres hammered in a buffer of `n` words.
pub open spec fn rowhammer_rounds(s: int, n: int) -> int {
    (n - s - 1) / s
}

/// How many times the centres `s`, `2s`, ... below `c` have touched word `j`.
pub open spec fn hits_before(j: int, s: int, c: int) -> int {
    if j % s == 0 {
        (if j + s < c { 1int } else { 0int }) + (if 2 * s <= j && j < c + s { 1int } else { 0int })
    } else {
        0
    }
}

/// Hammering the centre `c` touches its two neighbours once more, and no other word.
proof fn lemma_hits_advance(j: int, s: int, c: int)
    requires
        s > 0,
        c % s == 0,
        c >= s,
        j >= 0,
    ensures
        hits_before(j, s, c + s) == hits_before(j, s, c) + (if j == c - s || j == c + s {
            1int
        } else {
            0int
        }),
{
    lemma_multiple_shift(c, s);
    if j % s == 0 {
        lemma_multiple_shift(j, s);
        if j + s > c {
            lemma_multiples_gap(c, j + s, s);
        }
        if j > c + s {
            lemma_multiple_shift(c + s, s);
            lemma_multiples_gap(c + s, j, s);
        }
    }
}

/// Once the centres run past `n - s`, every word has been touched as often as
/// `rowhammer_hits` says.
proof fn lemma_hits_final(j: int, s: int, c: int, n: int)
    requires
        s > 0,
        c % s == 0,
        n - s <= c < n,
        0 <= j < n,
    ensures
        hits_before(j, s, c) == rowhammer_hits(j, s, n),
{
    if j % s == 0 {
        lemma_multiple_shift(j, s);
        if j + s < c {
            lemma_multiples_gap(j + s, c, s);
        }
    }
}

/// A progress mark every `every` units of work, at positions `stride` apart,
/// for `done` units in all.
pub open spec fn periodic_marks(verbose: bool, done: int, every: int, stride: int, total: int) -> Seq<ProgressMark> {
    if verbose {
        Seq::new(
            (done / every) as nat,
            |i: int| ProgressMark {
                position: ((i + 1) * every * stride) as usize,
                total: total as usize,
                count: ((i + 1) * every) as usize,
            },
        )
    } else {
        Seq::empty()
    }
}

/// The buffer after every word has been incremented `h` times.
pub open spec fn incremented(mem: Seq<u64>, h: int) -> Seq<u64> {
    Seq::new(mem.len(), |j: int| add_wrapped(mem[j], h))
}

/// The progress marks of a pass over `n` units that reports at every
/// nonzero multiple of `every` below `n`.
pub open spec fn marks_below(verbose: bool, n: int, every: int) -> Seq<ProgressMark> {
    periodic_marks(verbose, if n > 0 { n - 1 } else { 0 }, every, 1, n)
}

/// Increments word `i` `h` times.
fn hammer_word(memory: &mut [u64], i: usize, h: usize)
    requires
        i < old(memory)@.len(),
    ensures
        final(memory)@ == old(memory)@.update(i as int, add_wrapped(old(memory)@[i as int], h as int)),
{
    let ghost orig = memory@;
    let ghost start = memory@[i as int];
    let mut t: usize = 0;
    while t < h
        invariant
            memory@.len() == orig.len(),
            i < memory@.len(),
            t <= h,
            memory@ == orig.update(i as int, add_wrapped(start, t as int)),
            start == orig[i as int],
        decreases h - t,
    {
        let v = memory[i];
        proof {
            lemma_wrapping_increment(v);
            lemma_add_wrapped_twice(start, t as int, 1);
        }
        memory[i] = v.wrapping_add(1);
        t = t + 1;
        assert(memory@ =~= orig.update(i as int, add_wrapped(start, t as int)));
    }
    proof {
        if h == 0 {
            assert(add_wrapped(start, 0) == start) by {
                assert((start + 0) % 0x1_0000_0000_0000_0000 == start as int);
            }
            assert(memory@ =~= orig.update(i as int, add_wrapped(start, 0)));
        }
    }
}

/// Increments words `a` and `b`, which differ, `h` times each.
fn hammer_pair(memory: &mut [u64], a: usize, b: usize, h: usize)
    requires
        a < old(memory)@.len(),
        b < old(memory)@.len(),
        a != b,
    ensures
        final(memory)@ == old(memory)@.update(a as int, add_wrapped(old(memory)@[a as int], h as int)).update(
            b as int,
            add_wrapped(old(memory)@[b as int], h as int),
        ),
{
    let ghost orig = memory@;
    let ghost start_a = memory@[a as int];
    let ghost start_b = memory@[b as int];
    let mut t: usize = 0;
    while t < h
        invariant
            memory@.len() == orig.len(),
            a < memory@.len(),
            b < memory@.len(),
            a != b,
            t <= h,
            start_a == orig[a as int],
            start_b == orig[b as int],
            memory@ == orig.update(a as int, add_wrapped(start_a, t as int)).update(
                b as int,
                add_wrapped(start_b, t as int),
            ),
        decreases h - t,
    {
        let va = memory[a];
        let vb = memory[b];
        proof {
            lemma_wrapping_increment(va);
            lemma_wrapping_increment(vb);
            lemma_add_wrapped_twice(start_a, t as int, 1);
            lemma_add_wrapped_twice(start_b, t as int, 1);
        }
        memory[a] = va.wrapping_add(1);
        memory[b] = vb.wrapping_add(1);
        t = t + 1;
        assert(memory@ =~= orig.update(a as int, add_wrapped(start_a, t as int)).update(
            b as int,
            add_wrapped(start_b, t as int),
        ));
    }
    proof {
        assert((start_a + 0) % 0x1_0000_0000_0000_0000 == start_a as int);
        assert((start_b + 0) % 0x1_0000_0000_0000_0000 == start_b as int);
    }
}

impl MemoryTester {
    /// Hammers the two rows around each centre `s`, `2s`, ... below `n - s`,
    /// `hammer_count` times each, where `s` is the step in words and `n` the
    /// buffer's length. Refuses a step of zero or of half the buffer or more.
    pub fn test_rowhammer(&self, memory: &mut [u64]) -> (r: Result<TestRun, TestError>)
        ensures
            ({
                let n = old(memory)@.len() as int;
                let s = rowhammer_elem_step(self.step_size);
                if rowhammer_refuses(self.step_size, n) {
                    &&& r == Err::<TestRun, TestError>(TestError::InvalidConfig(ConfigError::StepTooLarge))
                    &&& final(memory)@ == old(memory)@
                } else {
                    &&& r matches Ok(run)
                    &&& run.tests == rowhammer_rounds(s, n)
                    &&& run.progress@ == periodic_marks(
                        self.verbose,
                        run.tests as int,
                        ROWHAMMER_REPORT_EVERY as int,
                        s,
                        n,
                    )
                    &&& final(memory)@ == rowhammered(old(memory)@, s, self.hammer_count as int)
                }
            }),
    {
        let n = memory.len();
        let s = self.rowhammer_elem_step();
        if s == 0 || s >= n / 2 {
            return Err(TestError::InvalidConfig(ConfigError::StepTooLarge));
        }
        let h = self.hammer_count;
        let verbose = self.verbose;
        let ghost orig = memory@;
        let mut tests: usize = 0;
        let mut center: usize = s;
        let mut progress: Vec<ProgressMark> = Vec::new();
        proof {
            vstd::arithmetic::div_mod::lemma_mod_self_0(s as int);
            assert forall|j: int| 0 <= j < n implies memory@[j] == add_wrapped(
                orig[j],
                h * hits_before(j, s as int, center as int),
            ) by {
                assert(hits_before(j, s as int, s as int) == 0);
                assert((orig[j] + 0) % 0x1_0000_0000_0000_0000 == orig[j] as int);
            }
            assert(progress@ =~= periodic_marks(verbose, 0, ROWHAMMER_REPORT_EVERY as int, s as int, n as int));
        }
        while center < n - s
            invariant
                n == memory@.len(),
                n == orig.len(),
                0 < s,
                s < n / 2,
                center == tests * s + s,
                tests <= center,
                center % s == 0,
                center - s < n - s,
                forall|j: int|
                    0 <= j < n ==> memory@[j] == add_wrapped(
                        orig[j],
                        h * hits_before(j, s as int, center as int),
                    ),
                progress@ == periodic_marks(
                    verbose,
                    tests as int,
                    ROWHAMMER_REPORT_EVERY as int,
                    s as int,
                    n as int,
                ),
            decreases n - center,
        {
            let a = center - s;
            let b = center + s;
            hammer_pair(memory, a, b, h);
            proof {
                assert forall|j: int| 0 <= j < n implies memory@[j] == add_wrapped(
                    orig[j],
                    h * hits_before(j, s as int, center + s),
                ) by {
                    lemma_hits_advance(j, s as int, center as int);
                    let k = hits_before(j, s as int, center as int);
                    if j == a || j == b {
                        vstd::arithmetic::mul::lemma_mul_is_distributive_add(h as int, k, 1);
                        lemma_add_wrapped_twice(orig[j], h * k, h as int);
                    }
                }
                lemma_multiple_shift(center as int, s as int);
                vstd::arithmetic::mul::lemma_mul_is_distributive_add_other_way(s as int, tests as int, 1);
            }
            tests = tests + 1;
            if verbose && tests % ROWHAMMER_REPORT_EVERY == 0 {
                progress.push(ProgressMark { position: center, total: n, count: tests });
            }
            proof {
                assert(progress@ =~= periodic_marks(
                    verbose,
                    tests as int,
                    ROWHAMMER_REPORT_EVERY as int,
                    s as int,
                    n as int,
                ));
            }
            center = center + s;
        }
        proof {
            assert forall|j: int| 0 <= j < n implies memory@[j] == rowhammered(orig, s as int, h as int)[j] by {
                lemma_hits_final(j, s as int, center as int, n as int);
            }
            assert(memory@ =~= rowhammered(orig, s as int, h as int));
            vstd::arithmetic::div_mod::lemma_fundamental_div_mod_converse(
                n - s - 1,
                s as int,
                tests as int,
                n - s - 1 - tests * s,
            );
        }
        Ok(TestRun { tests, progress })
    }

    /// Increments every word, in order, `hammer_count` times.
    pub fn test_sequential(&self, memory: &mut [u64]) -> (run: TestRun)
        ensures
            run.tests == old(memory)@.len(),
            run.progress@ == marks_below(
                self.verbose,
                old(memory)@.len() as int,
                SEQUENTIAL_REPORT_EVERY as int,
            ),
            final(memory)@ == incremented(old(memory)@, self.hammer_count as int),
            final(memory)@.len() == old(memory)@.len(),
            forall|j: int|
                0 <= j < old(memory)@.len() ==> final(memory)@[j] as int == (old(memory)@[j]
                    + self.hammer_count) % 0x1_0000_0000_0000_0000,
    {
        let n = memory.len();
        let h = self.hammer_count;
        let verbose = self.verbose;
        let ghost orig = memory@;
        let mut progress: Vec<ProgressMark> = Vec::new();
        let mut i: usize = 0;
        while i < n
            invariant
                n == memory@.len(),
                n == orig.len(),
                i <= n,
                forall|j: int| 0 <= j < i ==> memory@[j] == add_wrapped(orig[j], h as int),
                forall|j: int| i <= j < n ==> memory@[j] == orig[j],
                progress@ == periodic_marks(
                    verbose,
                    if i > 0 { i - 1 } else { 0 },
                    SEQUENTIAL_REPORT_EVERY as int,
                    1,
                    n as int,
                ),
            decreases n - i,
        {
            hammer_word(memory, i, h);
            if verbose && i % SEQUENTIAL_REPORT_EVERY == 0 && i > 0 {
                progress.push(ProgressMark { position: i, total: n, count: i });
            }
            proof {
                assert(progress@ =~= periodic_marks(
                    verbose,
                    i as int,
                    SEQUENTIAL_REPORT_EVERY as int,
                    1,
                    n as int,
                ));
            }
            i = i + 1;
        }
        assert(memory@ =~= incremented(orig, h as int));
        TestRun { tests: n, progress }
    }

    /// The distance, in words, between a hammered row and its neighbours.
    pub fn rowhammer_elem_step(&self) -> (s: usize)
        ensures
            s == rowhammer_elem_step(self.step_size),
            self.step_size % 8 == 0 ==> s == self.step_size / 8,
            self.step_size % 8 != 0 ==> s == 1,
    {
        if self.step_size % WORD_BYTES == 0 {
            self.step_size / WORD_BYTES
        } else {
            1
        }
    }
}

} // verus!
