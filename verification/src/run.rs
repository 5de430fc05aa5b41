use vstd::prelude::*;
use std::collections::HashMap;
use crate::arith::{add_wrapped, lemma_add_wrapped_twice, lemma_add_wrapped_zero, lemma_wrapping_add};
use crate::buffer::uniform;
use crate::config::{ConfigError, MemoryTester, Mode, TestError};
use crate::hammer::{
    incremented, marks_below, periodic_marks, rowhammer_elem_step, rowhammer_hits, rowhammer_refuses,
    rowhammer_rounds, rowhammered, TestRun, ROWHAMMER_REPORT_EVERY, SEQUENTIAL_REPORT_EVERY,
};
use crate::integrity::{
    error_at, lemma_mismatches_prefix, mismatches_below, recorded_errors, ErrorLocation,
    MAX_RECORDED_ERRORS,
};
use crate::patterns::{
    checkerboard_base, checkerboard_marks, checkerboarded, pattern, pattern_spec, PATTERN_COUNT,
};
use crate::random::{counted_hits, drawn_for, hit_count, random_ops, RANDOM_REPORT_EVERY};
use crate::rng::SeededRng;

verus! {

broadcast use vstd::std_specs::hash::group_hash_axioms;

/// What testing one fill pattern gave. In random mode, `hits` counts how
/// often each word was picked and `rng` is the generator that drew the
/// picks; in the other modes `hits` is empty and `rng` is `None`.
pub struct PatternOutcome {
    pub pattern_id: usize,
    pub pattern: u64,
    pub run: TestRun,
    pub hits: HashMap<usize, u64>,
    pub rng: Option<SeededRng>,
    pub errors: Vec<ErrorLocation>,
}

/// The running totals of a test run: the patterns tested so far, their
/// tests added up (saturating), and their anomalies one after the other.
pub struct RunTally {
    pub patterns_done: usize,
    pub total_tests: usize,
    pub error_locations: Vec<ErrorLocation>,
}

/// How many tests one pattern counts in the tester's mode, on `n` words.
pub open spec fn mode_tests(t: MemoryTester, n: int) -> int {
    match t.mode {
        Mode::Rowhammer => rowhammer_rounds(rowhammer_elem_step(t.step_size), n),
        Mode::Sequential => n,
        Mode::Random => random_ops(t.hammer_count, n),
        Mode::Checkerboard => n * t.hammer_count,
    }
}

/// What the tester's access pattern writes over a buffer `before`, where
/// `hits` counts the random picks.
pub open spec fn mode_writes(t: MemoryTester, before: Seq<u64>, hits: Map<usize, u64>) -> Seq<u64> {
    let h = t.hammer_count as int;
    match t.mode {
        Mode::Rowhammer => rowhammered(before, rowhammer_elem_step(t.step_size), h),
        Mode::Sequential => incremented(before, h),
        Mode::Random => counted_hits(before, hits),
        Mode::Checkerboard => checkerboarded(before, h),
    }
}

/// The words the fill with `p` and then the tester's access pattern wrote
/// to a buffer of `n` words.
pub open spec fn written(t: MemoryTester, p: u64, n: int, hits: Map<usize, u64>) -> Seq<u64> {
    mode_writes(t, uniform(n, p), hits)
}

/// What the tester's access pattern does to a buffer `before`, leaving
/// `after`, reporting `run`, and, in random mode, drawing its picks with the
/// generator `rng` and counting them in `hits`.
pub open spec fn mode_effect(
    t: MemoryTester,
    before: Seq<u64>,
    after: Seq<u64>,
    run: TestRun,
    hits: Map<usize, u64>,
    rng: Option<SeededRng>,
) -> bool {
    let n = before.len() as int;
    let h = t.hammer_count as int;
    &&& run.tests == mode_tests(t, n)
    &&& after == mode_writes(t, before, hits)
    &&& t.mode != Mode::Random ==> hits == Map::<usize, u64>::empty() && rng is None
    &&& match t.mode {
        Mode::Rowhammer => run.progress@ == periodic_marks(
            t.verbose,
            run.tests as int,
            ROWHAMMER_REPORT_EVERY as int,
            rowhammer_elem_step(t.step_size),
            n,
        ),
        Mode::Sequential => run.progress@ == marks_below(t.verbose, n, SEQUENTIAL_REPORT_EVERY as int),
        Mode::Random => {
            &&& run.progress@ == marks_below(t.verbose, run.tests as int, RANDOM_REPORT_EVERY as int)
            &&& rng matches Some(g)
            &&& drawn_for(g, t.rng_seed, run.tests as int, n, hits)
        },
        Mode::Checkerboard => run.progress@ == checkerboard_marks(t.verbose, h, h),
    }
}

/// Whether the tester's access pattern refuses a buffer of `n` words.
pub open spec fn mode_refuses(t: MemoryTester, n: int) -> bool {
    t.mode == Mode::Rowhammer && rowhammer_refuses(t.step_size, n)
}

/// What the access pattern needs of the buffer's length so that its counts
/// fit in a `usize`.
pub open spec fn mode_fits(t: MemoryTester, n: int) -> bool {
    &&& t.mode == Mode::Random ==> n <= usize::MAX / 2
    &&& t.mode == Mode::Checkerboard ==> n * t.hammer_count <= usize::MAX
}

/// The sum of `a` and `b`, saturated at `usize::MAX`.
pub open spec fn saturating_sum(a: int, b: int) -> int {
    if a + b > usize::MAX {
        usize::MAX as int
    } else {
        a + b
    }
}

impl MemoryTester {
    /// Whether this tester's access pattern can run on a buffer of `n` words
    /// with every count in range.
    pub fn fits(&self, n: usize) -> (b: bool)
        ensures
            b == mode_fits(*self, n as int),
    {
        match self.mode {
            Mode::Random => n <= usize::MAX / 2,
            Mode::Checkerboard => n.checked_mul(self.hammer_count).is_some(),
            _ => true,
        }
    }

    /// Whether this tester's access pattern refuses a buffer of `n` words.
    pub fn refuses(&self, n: usize) -> (b: bool)
        ensures
            b == mode_refuses(*self, n as int),
    {
        match self.mode {
            Mode::Rowhammer => {
                let s = self.rowhammer_elem_step();
                s == 0 || s >= n / 2
            },
            _ => false,
        }
    }

    /// The word that the fill with `pattern` and then the access pattern
    /// wrote at index `j` of a buffer of `n` words.
    pub fn written_word(&self, pattern: u64, n: usize, j: usize, hits: &HashMap<usize, u64>) -> (w: u64)
        requires
            j < n,
            !mode_refuses(*self, n as int),
        ensures
            w == written(*self, pattern, n as int, hits@)[j as int],
    {
        let h = self.hammer_count;
        proof {
            lemma_add_wrapped_zero(pattern);
        }
        match self.mode {
            Mode::Rowhammer => {
                let s = self.rowhammer_elem_step();
                let k: usize = if j % s == 0 {
                    (if 2 * s < n - j { 1usize } else { 0usize }) + (if 2 * s <= j { 1usize } else { 0usize })
                } else {
                    0
                };
                assert(k == rowhammer_hits(j as int, s as int, n as int));
                let mut w = pattern;
                if k >= 1 {
                    proof {
                        lemma_wrapping_add(pattern, h as u64);
                    }
                    w = w.wrapping_add(h as u64);
                }
                if k == 2 {
                    proof {
                        lemma_wrapping_add(w, h as u64);
                        lemma_add_wrapped_twice(pattern, h as int, h as int);
                    }
                    w = w.wrapping_add(h as u64);
                }
                proof {
                    let hh = h as int;
                    assert(hh * 0 == 0);
                    assert(hh * 1 == hh);
                    assert(hh * 2 == hh + hh);
                    assert(uniform(n as int, pattern)[j as int] == pattern);
                }
                w
            },
            Mode::Sequential => {
                proof {
                    lemma_wrapping_add(pattern, h as u64);
                }
                pattern.wrapping_add(h as u64)
            },
            Mode::Random => {
                let count: u64 = match hits.get(&j) {
                    Some(c) => *c,
                    None => 0,
                };
                assert(count == hit_count(hits@, j as int));
                proof {
                    lemma_wrapping_add(pattern, count);
                }
                pattern.wrapping_add(count)
            },
            Mode::Checkerboard => {
                if h == 0 {
                    pattern
                } else {
                    let base: u64 = if (h - 1) % 2 == 0 {
                        crate::patterns::pattern(0)
                    } else {
                        crate::patterns::pattern(1)
                    };
                    assert(base == checkerboard_base(h - 1));
                    if j % 2 == 0 {
                        base
                    } else {
                        !base
                    }
                }
            },
        }
    }

    /// Records, in order of index, the words of `memory` that differ from
    /// what the fill with `pattern` and then the access pattern wrote there,
    /// stopping after `MAX_RECORDED_ERRORS` of them.
    pub fn check_written(
        &self,
        memory: &[u64],
        pattern: u64,
        pattern_id: usize,
        hits: &HashMap<usize, u64>,
    ) -> (errors: Vec<ErrorLocation>)
        requires
            !mode_refuses(*self, memory@.len() as int),
        ensures
            errors@ == recorded_errors(
                memory@,
                written(*self, pattern, memory@.len() as int, hits@),
                pattern_id,
            ),
    {
        let n = memory.len();
        let ghost exp = written(*self, pattern, n as int, hits@);
        let mut errors: Vec<ErrorLocation> = Vec::new();
        let mut i: usize = 0;
        while i < n
            invariant_except_break
                n == memory@.len(),
                !mode_refuses(*self, n as int),
                exp == written(*self, pattern, n as int, hits@),
                i <= n,
                errors@.len() < MAX_RECORDED_ERRORS,
                errors@.len() == mismatches_below(memory@, exp, i as int).len(),
                forall|k: int|
                    0 <= k < errors@.len() ==> #[trigger] errors@[k] == error_at(
                        memory@,
                        exp,
                        pattern_id,
                        mismatches_below(memory@, exp, i as int)[k],
                    ),
            ensures
                errors@ == recorded_errors(memory@, exp, pattern_id),
            decreases n - i,
        {
            let v = memory[i];
            let w = self.written_word(pattern, n, i, hits);
            if v != w {
                errors.push(ErrorLocation { index: i, expected: w, actual: v, pattern_id });
                if errors.len() >= MAX_RECORDED_ERRORS {
                    proof {
                        let below = mismatches_below(memory@, exp, i + 1);
                        assert(below == mismatches_below(memory@, exp, i as int).push(i as int));
                        lemma_mismatches_prefix(memory@, exp, i + 1, n as int);
                        assert forall|k: int| 0 <= k < errors@.len() implies errors@[k] == error_at(
                            memory@,
                            exp,
                            pattern_id,
                            below[k],
                        ) by {}
                        assert(errors@ =~= recorded_errors(memory@, exp, pattern_id));
                    }
                    break;
                }
            }
            i = i + 1;
        }
        proof {
            if i >= n {
                assert(errors@ =~= recorded_errors(memory@, exp, pattern_id));
            }
        }
        errors
    }

    /// Fills the buffer with pattern number `pattern_id`, applies the access
    /// pattern of the tester's mode, and checks every word against what the
    /// fill and the access pattern wrote there.
    pub fn run_pattern(&self, memory: &mut [u64], pattern_id: usize) -> (r: Result<PatternOutcome, TestError>)
        requires
            pattern_id < PATTERN_COUNT,
            mode_fits(*self, old(memory)@.len() as int),
        ensures
            ({
                let n = old(memory)@.len() as int;
                let p = pattern_spec(pattern_id as int);
                let filled = uniform(n, p);
                if mode_refuses(*self, n) {
                    &&& r == Err::<PatternOutcome, TestError>(TestError::InvalidConfig(ConfigError::StepTooLarge))
                    &&& final(memory)@ == filled
                } else {
                    &&& r matches Ok(o)
                    &&& o.pattern_id == pattern_id
                    &&& o.pattern == p
                    &&& mode_effect(*self, filled, final(memory)@, o.run, o.hits@, o.rng)
                    &&& o.errors@ == recorded_errors(final(memory)@, written(*self, p, n, o.hits@), pattern_id)
                }
            }),
    {
        let p = pattern(pattern_id);
        self.fill_pattern(memory, p);
        let (run, hits, rng) = match self.mode {
            Mode::Rowhammer => {
                match self.test_rowhammer(memory) {
                    Ok(run) => (run, HashMap::new(), None),
                    Err(e) => {
                        return Err(e);
                    },
                }
            },
            Mode::Sequential => (self.test_sequential(memory), HashMap::new(), None),
            Mode::Random => {
                let r = self.test_random(memory);
                (r.run, r.hits, Some(r.rng))
            },
            Mode::Checkerboard => (self.test_checkerboard(memory), HashMap::new(), None),
        };
        let errors = self.check_written(memory, p, pattern_id, &hits);
        Ok(PatternOutcome { pattern_id, pattern: p, run, hits, rng, errors })
    }
}

/// Anomalies ordered by pattern, then by index.
pub open spec fn errors_ordered(e: Seq<ErrorLocation>) -> bool {
    forall|i: int, j: int|
        0 <= i < j < e.len() ==> (#[trigger] e[i]).pattern_id < (#[trigger] e[j]).pattern_id || (
        e[i].pattern_id == e[j].pattern_id && e[i].index < e[j].index)
}

/// `min(a, usize::MAX)`.
pub open spec fn saturated(a: int) -> int {
    if a > usize::MAX {
        usize::MAX as int
    } else {
        a
    }
}

/// One pattern's anomalies all carry its number and come in order of index.
pub proof fn lemma_recorded_errors_ordered(mem: Seq<u64>, expected: Seq<u64>, pattern_id: usize)
    requires
        mem.len() <= expected.len(),
        mem.len() <= usize::MAX,
    ensures
        errors_ordered(recorded_errors(mem, expected, pattern_id)),
        forall|i: int|
            0 <= i < recorded_errors(mem, expected, pattern_id).len() ==> (#[trigger] recorded_errors(
                mem,
                expected,
                pattern_id,
            )[i]).pattern_id == pattern_id,
{
    crate::integrity::lemma_mismatches_exact(mem, expected, mem.len() as int);
    let e = recorded_errors(mem, expected, pattern_id);
    let all = mismatches_below(mem, expected, mem.len() as int);
    assert forall|i: int, j: int| 0 <= i < j < e.len() implies (#[trigger] e[i]).pattern_id < (
    #[trigger] e[j]).pattern_id || (e[i].pattern_id == e[j].pattern_id && e[i].index < e[j].index) by {
        assert(all[i] < all[j]);
        assert(0 <= all[i] < mem.len());
        assert(0 <= all[j] < mem.len());
    }
}

/// Appending the anomalies of the next pattern, in order of index, to those
/// of the earlier ones keeps them ordered by pattern, then by index.
pub proof fn lemma_append_ordered(before: Seq<ErrorLocation>, tail: Seq<ErrorLocation>, pattern_id: usize)
    requires
        errors_ordered(before),
        forall|i: int| 0 <= i < before.len() ==> (#[trigger] before[i]).pattern_id < pattern_id,
        errors_ordered(tail),
        forall|i: int| 0 <= i < tail.len() ==> (#[trigger] tail[i]).pattern_id == pattern_id,
    ensures
        errors_ordered(before + tail),
        forall|i: int| 0 <= i < (before + tail).len() ==> (#[trigger] (before + tail)[i]).pattern_id <= pattern_id,
{
    let now = before + tail;
    assert forall|i: int, j: int| 0 <= i < j < now.len() implies (#[trigger] now[i]).pattern_id < (
    #[trigger] now[j]).pattern_id || (now[i].pattern_id == now[j].pattern_id && now[i].index
        < now[j].index) by {
        if j < before.len() {
            assert(now[i] == before[i]);
            assert(now[j] == before[j]);
        } else if i < before.len() {
            assert(now[i] == before[i]);
            assert(now[j] == tail[j - before.len()]);
        } else {
            assert(now[i] == tail[i - before.len()]);
            assert(now[j] == tail[j - before.len()]);
        }
    }
    assert forall|i: int| 0 <= i < now.len() implies (#[trigger] now[i]).pattern_id <= pattern_id by {
        if i < before.len() {
            assert(now[i] == before[i]);
        } else {
            assert(now[i] == tail[i - before.len()]);
        }
    }
}

/// Adding `k` more tests to the saturated total of `d` patterns of `k` tests
/// each gives the saturated total of `d + 1` of them.
proof fn lemma_saturated_step(d: int, k: int)
    requires
        d >= 0,
        k >= 0,
    ensures
        saturating_sum(saturated(d * k), k) == saturated((d + 1) * k),
{
    assert((d + 1) * k == d * k + k && d * k >= 0) by (nonlinear_arith)
        requires
            d >= 0,
            k >= 0,
    ;
}

impl MemoryTester {
    /// Tests the next pattern of a run, number `tally.patterns_done`, as
    /// `run_pattern` does, and records its tests and anomalies in the tally.
    /// Driven once per pattern, it keeps the tally a faithful account of the
    /// run so far.
    pub fn run_next(&self, memory: &mut [u64], tally: &mut RunTally) -> (r: Result<PatternOutcome, TestError>)
        requires
            old(tally).patterns_done < PATTERN_COUNT,
            old(tally).tracks(*self, old(memory)@.len() as int),
            mode_fits(*self, old(memory)@.len() as int),
        ensures
            ({
                let n = old(memory)@.len() as int;
                let pattern_id = old(tally).patterns_done;
                let p = pattern_spec(pattern_id as int);
                let filled = uniform(n, p);
                if mode_refuses(*self, n) {
                    &&& r == Err::<PatternOutcome, TestError>(TestError::InvalidConfig(ConfigError::StepTooLarge))
                    &&& final(memory)@ == filled
                    &&& final(tally).patterns_done == old(tally).patterns_done
                    &&& final(tally).total_tests == old(tally).total_tests
                    &&& final(tally).error_locations@ == old(tally).error_locations@
                } else {
                    &&& r matches Ok(o)
                    &&& o.pattern_id == pattern_id
                    &&& o.pattern == p
                    &&& o.run.tests == mode_tests(*self, n)
                    &&& mode_effect(*self, filled, final(memory)@, o.run, o.hits@, o.rng)
                    &&& o.errors@ == recorded_errors(final(memory)@, written(*self, p, n, o.hits@), pattern_id)
                    &&& final(tally).patterns_done == pattern_id + 1
                    &&& final(tally).total_tests == saturating_sum(old(tally).total_tests as int, o.run.tests as int)
                    &&& final(tally).error_locations@ == old(tally).error_locations@ + o.errors@
                    &&& final(tally).tracks(*self, n)
                }
            }),
    {
        let ghost n = memory@.len() as int;
        let pattern_id = tally.patterns_done;
        let ghost n_words = memory.len();
        let outcome = match self.run_pattern(memory, pattern_id) {
            Ok(o) => o,
            Err(e) => {
                return Err(e);
            },
        };
        let ghost before = tally.error_locations@;
        tally.record(outcome.run.tests, &outcome.errors);
        proof {
            let k = outcome.run.tests as int;
            assert(memory@.len() == n_words);
            lemma_saturated_step(pattern_id as int, k);
            lemma_recorded_errors_ordered(
                memory@,
                written(*self, outcome.pattern, n, outcome.hits@),
                pattern_id,
            );
            lemma_append_ordered(before, outcome.errors@, pattern_id);
        }
        Ok(outcome)
    }
}

impl RunTally {
    /// The state of a run of `t` on a buffer of `n` words after
    /// `patterns_done` patterns: each counted `mode_tests(t, n)` tests, and
    /// the anomalies come by pattern, then by index, all from the patterns done.
    pub open spec fn tracks(&self, t: MemoryTester, n: int) -> bool {
        &&& self.patterns_done <= PATTERN_COUNT
        &&& self.total_tests == saturated(self.patterns_done * mode_tests(t, n))
        &&& errors_ordered(self.error_locations@)
        &&& forall|i: int|
            0 <= i < self.error_locations@.len() ==> (#[trigger] self.error_locations@[i]).pattern_id
                < self.patterns_done
    }

    /// No pattern yet, no tests, no errors.
    pub fn new() -> (t: RunTally)
        ensures
            t.patterns_done == 0,
            t.total_tests == 0,
            t.error_locations@ == Seq::<ErrorLocation>::empty(),
    {
        RunTally { patterns_done: 0, total_tests: 0, error_locations: Vec::new() }
    }

    /// Counts one more pattern, adds its tests, saturating, and appends a
    /// copy of its errors.
    pub fn record(&mut self, tests: usize, errors: &Vec<ErrorLocation>)
        requires
            old(self).patterns_done < usize::MAX,
        ensures
            final(self).patterns_done == old(self).patterns_done + 1,
            final(self).total_tests == saturating_sum(old(self).total_tests as int, tests as int),
            final(self).error_locations@ == old(self).error_locations@ + errors@,
    {
        self.patterns_done = self.patterns_done + 1;
        self.total_tests = self.total_tests.saturating_add(tests);
        let ghost start = self.error_locations@;
        let mut i: usize = 0;
        while i < errors.len()
            invariant
                i <= errors@.len(),
                self.patterns_done == old(self).patterns_done + 1,
                self.total_tests == saturating_sum(old(self).total_tests as int, tests as int),
                self.error_locations@ == start + errors@.subrange(0, i as int),
            decreases errors@.len() - i,
        {
            self.error_locations.push(errors[i]);
            i = i + 1;
            assert(self.error_locations@ =~= start + errors@.subrange(0, i as int));
        }
        assert(errors@.subrange(0, errors@.len() as int) =~= errors@);
    }

    /// The number of anomalies recorded so far.
    pub fn anomalies_found(&self) -> (count: usize)
        ensures
            count == self.error_locations@.len(),
    {
        self.error_locations.len()
    }
}

} // verus!
