use vstd::prelude::*;
use crate::buffer::{allocation_too_large, uniform, word_count};
use crate::config::{config_violation, ConfigError, MemoryTester, Mode};
use crate::hammer::{
    incremented, marks_below, periodic_marks, rowhammer_elem_step, rowhammer_refuses,
    rowhammer_rounds, rowhammered,
};
use crate::integrity::{mismatches, recorded_errors, lemma_mismatches_exact};
use crate::patterns::{checkerboard_marks, checkerboarded, pattern_spec};
use crate::random::{counted_hits, drawn_for, hit_count, random_ops};
use crate::rng::SeededRng;
use crate::run::{mode_fits, mode_refuses, mode_tests, saturated, saturating_sum, written};
use crate::logfile::{log_file_spec, LogFile, PathFacts};

verus! {

/// `new` accepts exactly the requests for 1 to 32768 megabytes with a
/// nonzero hammer count and a nonzero step, and names the first rule a
/// request breaks, in the order memory, hammer count, cap, step.
pub proof fn lemma_config_rules(m: usize, h: usize, s: usize)
    ensures
        config_violation(m, h, s).is_none() <==> (0 < m <= 32768 && h > 0 && s > 0),
        m == 0 ==> config_violation(m, h, s) == Some(ConfigError::ZeroMemorySize),
        m > 0 && h == 0 ==> config_violation(m, h, s) == Some(ConfigError::ZeroHammerCount),
        m > 32768 && h > 0 ==> config_violation(m, h, s) == Some(
            ConfigError::MemoryOverCap { requested: m },
        ),
        0 < m <= 32768 && h > 0 && s == 0 ==> config_violation(m, h, s) == Some(
            ConfigError::ZeroStepSize,
        ),
{
}

/// A buffer of `m` megabytes holds `m * 131072` words, and is refused as too
/// large exactly when its bytes overflow a `usize` or its words exceed what a
/// `Vec` may hold.
pub proof fn lemma_buffer_size(m: usize)
    ensures
        word_count(m) == m * 131072,
        allocation_too_large(m) <==> (m * 1048576 > usize::MAX || m * 131072 > (isize::MAX as int) / 8),
        uniform(word_count(m), 0).len() == m * 131072,
        forall|i: int| 0 <= i < m * 131072 ==> uniform(word_count(m), 0)[i] == 0,
{
    assert(word_count(m) == m * 131072) by (nonlinear_arith)
        requires
            word_count(m) == (m * 1048576) / 8,
    ;
}

/// The four fill patterns, in order.
pub proof fn lemma_pattern_values()
    ensures
        pattern_spec(0) == 0xAAAAAAAAAAAAAAAAu64,
        pattern_spec(1) == 0x5555555555555555u64,
        pattern_spec(2) == 0xFFFFFFFFFFFFFFFFu64,
        pattern_spec(3) == 0u64,
{
}

/// The rowhammer distance is the step in bytes as a number of words when the
/// step is a whole number of words, and one word otherwise.
pub proof fn lemma_rowhammer_step_in_words(step_size: usize)
    ensures
        step_size % 8 == 0 ==> rowhammer_elem_step(step_size) == step_size / 8,
        step_size % 8 != 0 ==> rowhammer_elem_step(step_size) == 1,
{
}

/// Rowhammer refuses a buffer of `n` words exactly when the distance in words
/// is zero or at least half the buffer.
pub proof fn lemma_rowhammer_refusal(step_size: usize, n: int)
    ensures
        rowhammer_refuses(step_size, n) <==> (step_size == 0 || (step_size % 8 == 0 && step_size / 8
            >= n / 2) || (step_size % 8 != 0 && 1 >= n / 2)),
{
}

/// The rowhammer centres are `s`, `2s`, ..., `rounds * s`: all of them lie
/// below `n - s`, and the next one would not.
pub proof fn lemma_rowhammer_rounds(s: int, n: int)
    requires
        0 < s,
        2 * s < n,
    ensures
        rowhammer_rounds(s, n) >= 1,
        rowhammer_rounds(s, n) * s < n - s,
        (rowhammer_rounds(s, n) + 1) * s >= n - s,
{
    let r = rowhammer_rounds(s, n);
    vstd::arithmetic::div_mod::lemma_fundamental_div_mod(n - s - 1, s);
    let q = (n - s - 1) / s;
    let rem = (n - s - 1) % s;
    assert(r == q);
    assert(0 <= rem < s);
    assert(n - s - 1 == s * q + rem);
    assert(q >= 1 && q * s < n - s && (q + 1) * s >= n - s) by (nonlinear_arith)
        requires
            0 < s,
            2 * s < n,
            n - s - 1 == s * q + rem,
            0 <= rem < s,
    ;
}

/// After rowhammer with distance `s`, word `j` has gained `h` once for each
/// centre it neighbours: once when a centre lies `s` above it (that is, it
/// is a multiple of `s` and `j + 2s < n`), once when a centre lies `s` below
/// it (a multiple of `s` at least `2s`); every other word is unchanged.
pub proof fn lemma_rowhammer_effect(mem: Seq<u64>, s: int, h: int, j: int)
    requires
        0 < s,
        0 <= j < mem.len(),
    ensures
        rowhammered(mem, s, h).len() == mem.len(),
        rowhammered(mem, s, h)[j] as int == (mem[j] + h * ((if j % s == 0 && j + 2 * s < mem.len() {
            1int
        } else {
            0int
        }) + (if j % s == 0 && 2 * s <= j {
            1int
        } else {
            0int
        }))) % 0x1_0000_0000_0000_0000,
{
}

/// After the sequential test, every word has gained the hammer count, with
/// wrap-around at 2^64.
pub proof fn lemma_sequential_adds_hammer_count(mem: Seq<u64>, h: int, j: int)
    requires
        h >= 0,
        0 <= j < mem.len(),
    ensures
        incremented(mem, h).len() == mem.len(),
        incremented(mem, h)[j] as int == (mem[j] + h) % 0x1_0000_0000_0000_0000,
{
}

/// After the random test, every word has gained one for each time it was
/// drawn, with wrap-around at 2^64.
pub proof fn lemma_random_adds_draw_counts(mem: Seq<u64>, hits: Map<usize, u64>, j: int)
    requires
        0 <= j < mem.len(),
        mem.len() <= usize::MAX,
    ensures
        counted_hits(mem, hits).len() == mem.len(),
        counted_hits(mem, hits)[j] as int == (mem[j] + hit_count(hits, j)) % 0x1_0000_0000_0000_0000,
        hits.contains_key(j as usize) ==> hit_count(hits, j) == hits[j as usize],
        !hits.contains_key(j as usize) ==> hit_count(hits, j) == 0,
{
}

/// The random test draws from the whole buffer: every one of its draws is
/// taken from `0..n` with the generator seeded by `seed`, gives an index
/// below `n`, and is counted once in `hits`.
pub proof fn lemma_random_draws_whole_buffer(
    g: SeededRng,
    seed: u64,
    tests: int,
    n: int,
    hits: Map<usize, u64>,
)
    requires
        drawn_for(g, seed, tests, n, hits),
        0 <= n <= usize::MAX,
    ensures
        g.seed() == seed,
        g.ranges().len() == tests,
        g.draws().len() == tests,
        forall|k: int| 0 <= k < tests ==> g.ranges()[k] as int == n,
        forall|k: int| 0 <= k < tests ==> g.draws()[k] < n,
        forall|j: usize| j < n ==> g.draws().to_multiset().count(j) == hit_count(hits, j as int),
{
}

/// The random test makes `hammer_count * 10000` draws, or as many as fit in
/// a `usize`, but never more than twice the buffer.
pub proof fn lemma_random_ops_count(h: usize, n: int)
    requires
        n >= 0,
    ensures
        random_ops(h, n) <= 2 * n,
        random_ops(h, n) <= h * 10000,
        random_ops(h, n) <= usize::MAX,
        h * 10000 <= usize::MAX && h * 10000 <= 2 * n ==> random_ops(h, n) == h * 10000,
        h * 10000 > usize::MAX && usize::MAX <= 2 * n ==> random_ops(h, n) == usize::MAX,
        (h * 10000 > 2 * n && 2 * n <= usize::MAX) ==> random_ops(h, n) == 2 * n,
{
}

/// What each mode writes over a buffer of `n` words filled with `p`, word
/// by word, in the tester's own terms.
pub proof fn lemma_written_words(t: MemoryTester, p: u64, n: int, hits: Map<usize, u64>, j: int)
    requires
        0 <= j < n,
    ensures
        written(t, p, n, hits).len() == n,
        t.mode == Mode::Sequential ==> written(t, p, n, hits)[j] as int == (p + t.hammer_count)
            % 0x1_0000_0000_0000_0000,
        t.mode == Mode::Random ==> written(t, p, n, hits)[j] as int == (p + hit_count(hits, j))
            % 0x1_0000_0000_0000_0000,
        t.mode == Mode::Checkerboard && t.hammer_count == 0 ==> written(t, p, n, hits)[j] == p,
        t.mode == Mode::Checkerboard && t.hammer_count > 0 ==> written(t, p, n, hits)[j] == (if (j
            + t.hammer_count - 1) % 2 == 0 {
            0xAAAAAAAAAAAAAAAAu64
        } else {
            0x5555555555555555u64
        }),
        t.mode == Mode::Rowhammer && t.step_size % 8 == 0 && t.step_size > 0 ==> {
            let s = (t.step_size / 8) as int;
            written(t, p, n, hits)[j] as int == (p + t.hammer_count * ((if j % s == 0 && j + 2 * s
                < n {
                1int
            } else {
                0int
            }) + (if j % s == 0 && 2 * s <= j {
                1int
            } else {
                0int
            }))) % 0x1_0000_0000_0000_0000
        },
        t.mode == Mode::Rowhammer && t.step_size % 8 != 0 ==> written(t, p, n, hits)[j] as int == (p
            + t.hammer_count * ((if j + 2 < n {
            1int
        } else {
            0int
        }) + (if 2 <= j {
            1int
        } else {
            0int
        }))) % 0x1_0000_0000_0000_0000,
{
    crate::laws::lemma_checkerboard_words_complementary();
}

/// A check records the mismatching words in increasing order of index, each
/// with the word expected there and the word found, and all of them when
/// there are fewer than 10000.
pub proof fn lemma_recorded_errors_meaning(mem: Seq<u64>, expected: Seq<u64>, pattern_id: usize)
    requires
        mem.len() <= expected.len(),
        mem.len() <= usize::MAX,
    ensures
        recorded_errors(mem, expected, pattern_id).len() == (if mismatches(mem, expected).len() < 10000 {
            mismatches(mem, expected).len() as int
        } else {
            10000
        }),
        forall|k: int|
            0 <= k < recorded_errors(mem, expected, pattern_id).len() ==> {
                let e = #[trigger] recorded_errors(mem, expected, pattern_id)[k];
                &&& e.index < mem.len()
                &&& e.actual == mem[e.index as int]
                &&& e.expected == expected[e.index as int]
                &&& e.actual != e.expected
                &&& e.pattern_id == pattern_id
            },
        forall|k1: int, k2: int|
            0 <= k1 < k2 < recorded_errors(mem, expected, pattern_id).len() ==> (
            #[trigger] recorded_errors(mem, expected, pattern_id)[k1]).index < (
            #[trigger] recorded_errors(mem, expected, pattern_id)[k2]).index,
        mismatches(mem, expected).len() < 10000 ==> forall|j: int|
            0 <= j < mem.len() && mem[j] != expected[j] ==> exists|k: int|
                0 <= k < recorded_errors(mem, expected, pattern_id).len() && (
                #[trigger] recorded_errors(mem, expected, pattern_id)[k]).index == j,
{
    lemma_mismatches_exact(mem, expected, mem.len() as int);
    let all = mismatches(mem, expected);
    let e = recorded_errors(mem, expected, pattern_id);
    assert forall|k: int| 0 <= k < e.len() implies {
        let x = #[trigger] e[k];
        &&& x.index < mem.len()
        &&& x.actual == mem[x.index as int]
        &&& x.expected == expected[x.index as int]
        &&& x.actual != x.expected
        &&& x.pattern_id == pattern_id
    } by {
        assert(0 <= all[k] < mem.len());
    }
    assert forall|k1: int, k2: int| 0 <= k1 < k2 < e.len() implies (#[trigger] e[k1]).index < (
    #[trigger] e[k2]).index by {
        assert(all[k1] < all[k2]);
        assert(0 <= all[k1] < mem.len());
        assert(0 <= all[k2] < mem.len());
    }
    if all.len() < 10000 {
        assert forall|j: int| 0 <= j < mem.len() && mem[j] != expected[j] implies exists|k: int|
            0 <= k < e.len() && (#[trigger] e[k]).index == j by {
            assert(all.contains(j));
            let k = choose|k: int| 0 <= k < all.len() && all[k] == j;
            assert(e[k].index == j);
        }
    }
}

/// Progress marks: the sequential and random tests report at every nonzero
/// multiple of `every` below their count; rowhammer after every `every` rows,
/// at the centre reached; checkerboard at pass zero and every `every` passes.
pub proof fn lemma_progress_marks(v: bool, n: int, every: int, done: int, s: int, h: int, i: int)
    requires
        every > 0,
        n > 0,
        done >= 0,
        h >= 0,
    ensures
        !v ==> marks_below(v, n, every).len() == 0,
        v ==> marks_below(v, n, every).len() == (n - 1) / every,
        v && 0 <= i < (n - 1) / every ==> marks_below(v, n, every)[i].position == ((i + 1) * every) as usize
            && marks_below(v, n, every)[i].count == ((i + 1) * every) as usize
            && marks_below(v, n, every)[i].total == n as usize,
        v ==> periodic_marks(v, done, every, s, n).len() == done / every,
        v && 0 <= i < done / every ==> periodic_marks(v, done, every, s, n)[i].count == ((i + 1)
            * every) as usize && periodic_marks(v, done, every, s, n)[i].position == ((i + 1) * every
            * s) as usize,
        v ==> checkerboard_marks(v, h, h).len() == (h + 99) / 100,
        v && 0 <= i < (h + 99) / 100 ==> checkerboard_marks(v, h, h)[i].position == (i * 100) as usize,
{
    if v && 0 <= i < (n - 1) / every {
        assert((i + 1) * every * 1 == (i + 1) * every);
    }
}

/// A filled buffer holds the fill word everywhere.
pub proof fn lemma_fill_everywhere(n: nat, p: u64, i: int)
    requires
        0 <= i < n,
    ensures
        uniform(n as int, p).len() == n,
        uniform(n as int, p)[i] == p,
{
}

/// How many tests one pattern counts: the rowhammer centres, one per word in
/// sequential mode, one per draw in random mode, one per word and pass in
/// checkerboard mode.
pub proof fn lemma_tests_per_pattern(t: MemoryTester, n: int)
    ensures
        t.mode == Mode::Sequential ==> mode_tests(t, n) == n,
        t.mode == Mode::Random ==> mode_tests(t, n) == random_ops(t.hammer_count, n),
        t.mode == Mode::Checkerboard ==> mode_tests(t, n) == n * t.hammer_count,
        t.mode == Mode::Rowhammer && t.step_size % 8 == 0 && t.step_size > 0 ==> mode_tests(t, n)
            == rowhammer_rounds((t.step_size / 8) as int, n),
        mode_refuses(t, n) <==> (t.mode == Mode::Rowhammer && rowhammer_refuses(t.step_size, n)),
        mode_fits(t, n) <==> ((t.mode == Mode::Random ==> n <= usize::MAX / 2) && (t.mode
            == Mode::Checkerboard ==> n * t.hammer_count <= usize::MAX)),
{
}

/// Run totals add up and stop at `usize::MAX`.
pub proof fn lemma_saturating_totals(a: int, b: int)
    ensures
        a + b <= usize::MAX ==> saturating_sum(a, b) == a + b,
        a + b > usize::MAX ==> saturating_sum(a, b) == usize::MAX,
        a <= usize::MAX ==> saturated(a) == a,
        a > usize::MAX ==> saturated(a) == usize::MAX,
{
}

/// The log goes inside a given directory; to a given path that ends in
/// `.log`, names an existing file or has a parent; and to the default place
/// for any other path and when none was given.
pub proof fn lemma_log_file_rules(given: bool, f: PathFacts)
    ensures
        !given ==> log_file_spec(given, f) == LogFile::Default,
        given && f.is_dir ==> log_file_spec(given, f) == LogFile::InGivenDirectory,
        given && !f.is_dir && (f.ends_with_log || f.is_existing_file || f.has_parent) ==> log_file_spec(
            given,
            f,
        ) == LogFile::Given,
        given && !f.is_dir && !f.ends_with_log && !f.is_existing_file && !f.has_parent ==> log_file_spec(
            given,
            f,
        ) == LogFile::Default,
{
}

} // verus!
