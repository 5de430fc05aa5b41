use vstd::prelude::*;
use crate::arith::lemma_add_wrapped_zero;
use crate::buffer::{allocation_too_large, uniform, word_count, BYTES_PER_MB};
use crate::config::{MemoryTester, MAX_MEMORY_MB};
use crate::hammer::{rowhammer_hits, rowhammered};
use crate::integrity::{mismatches_below, recorded_errors, ErrorLocation};
use crate::rng::SeededRng;
use crate::patterns::{checkerboarded, pattern_spec};
use crate::run::{
    errors_ordered, lemma_append_ordered, lemma_recorded_errors_ordered, mode_effect, saturating_sum,
    written,
};

verus! {

/// A tester that `new` accepted asks for at least one megabyte and at most
/// `MAX_MEMORY_MB` of them, so its buffer is never empty and never larger
/// than 32 GiB; where `usize` has 64 bits, its buffer is never refused as
/// too large.
pub proof fn lemma_valid_tester_buffer_bounds(t: MemoryTester)
    requires
        t.valid(),
    ensures
        0 < t.memory_size_mb * BYTES_PER_MB <= MAX_MEMORY_MB * BYTES_PER_MB,
        word_count(t.memory_size_mb) == t.memory_size_mb * 131072,
        word_count(t.memory_size_mb) >= 131072,
        usize::BITS == 64 ==> !allocation_too_large(t.memory_size_mb),
{
    assert(0 < t.memory_size_mb * BYTES_PER_MB <= MAX_MEMORY_MB * BYTES_PER_MB) by (nonlinear_arith)
        requires
            0 < t.memory_size_mb <= MAX_MEMORY_MB,
            BYTES_PER_MB == 1048576,
    ;
}

proof fn lemma_no_mismatch_against_itself(mem: Seq<u64>, upto: int)
    requires
        upto <= mem.len(),
    ensures
        mismatches_below(mem, mem, upto) == Seq::<int>::empty(),
    decreases upto,
{
    if upto > 0 {
        lemma_no_mismatch_against_itself(mem, upto - 1);
    }
}

/// A buffer that holds exactly what was written to it gives no anomaly.
pub proof fn lemma_unchanged_buffer_is_clean(mem: Seq<u64>, pattern_id: usize)
    ensures
        recorded_errors(mem, mem, pattern_id) == Seq::<ErrorLocation>::empty(),
{
    lemma_no_mismatch_against_itself(mem, mem.len() as int);
    assert(recorded_errors(mem, mem, pattern_id) =~= Seq::<ErrorLocation>::empty());
}

/// A buffer filled with one pattern and checked against it gives no anomaly.
pub proof fn lemma_fill_then_check_is_clean(n: nat, p: u64, pattern_id: usize)
    ensures
        recorded_errors(uniform(n as int, p), uniform(n as int, p), pattern_id) == Seq::<ErrorLocation>::empty(),
{
    lemma_unchanged_buffer_is_clean(uniform(n as int, p), pattern_id);
}

/// Without a bit flip, testing a pattern records no anomaly: the buffer that
/// the fill and the access pattern leave is what the check expects.
pub proof fn lemma_no_anomaly_without_flips(
    t: MemoryTester,
    n: nat,
    p: u64,
    after: Seq<u64>,
    run: crate::hammer::TestRun,
    hits: Map<usize, u64>,
    rng: Option<SeededRng>,
    pattern_id: usize,
)
    requires
        mode_effect(t, uniform(n as int, p), after, run, hits, rng),
    ensures
        after == written(t, p, n as int, hits),
        recorded_errors(after, written(t, p, n as int, hits), pattern_id) == Seq::<ErrorLocation>::empty(),
{
    lemma_unchanged_buffer_is_clean(after, pattern_id);
}

/// Rowhammer leaves every word whose index is not a multiple of the step as it was.
pub proof fn lemma_rowhammer_spares_other_words(mem: Seq<u64>, s: int, h: int, j: int)
    requires
        s > 0,
        0 <= j < mem.len(),
        j % s != 0,
    ensures
        rowhammered(mem, s, h)[j] == mem[j],
{
    assert(rowhammer_hits(j, s, mem.len() as int) == 0);
    assert(h * 0 == 0);
    lemma_add_wrapped_zero(mem[j]);
}

/// The two checkerboard words are each other's complement.
pub proof fn lemma_checkerboard_words_complementary()
    ensures
        !pattern_spec(0) == pattern_spec(1),
        !pattern_spec(1) == pattern_spec(0),
{
    assert(!0xAAAAAAAAAAAAAAAAu64 == 0x5555555555555555u64) by (bit_vector);
    assert(!0x5555555555555555u64 == 0xAAAAAAAAAAAAAAAAu64) by (bit_vector);
}

/// After at least one checkerboard pass, the buffer alternates between
/// `0xAAAA...` and `0x5555...`: word `i` is `0xAAAA...` exactly when `i` and
/// the number of passes differ in parity.
pub proof fn lemma_checkerboard_alternates(mem: Seq<u64>, h: int, i: int)
    requires
        h > 0,
        0 <= i < mem.len(),
    ensures
        checkerboarded(mem, h)[i] == (if (i + h - 1) % 2 == 0 {
            pattern_spec(0)
        } else {
            pattern_spec(1)
        }),
{
    lemma_checkerboard_words_complementary();
}

/// After at least one checkerboard pass, the buffer depends only on its
/// length and the number of passes, and the same passes again change nothing.
pub proof fn lemma_checkerboard_depends_on_length_only(m1: Seq<u64>, m2: Seq<u64>, h: int)
    requires
        m1.len() == m2.len(),
        h > 0,
    ensures
        checkerboarded(m1, h) == checkerboarded(m2, h),
        checkerboarded(checkerboarded(m1, h), h) == checkerboarded(m1, h),
{
    assert(checkerboarded(m1, h) =~= checkerboarded(m2, h));
    assert(checkerboarded(checkerboarded(m1, h), h) =~= checkerboarded(m1, h));
}

/// The total of a run: the tests of its patterns added up in order, each
/// addition saturating as `RunTally::record` does.
pub open spec fn tally_tests(tests: Seq<int>) -> int
    decreases tests.len(),
{
    if tests.len() == 0 {
        0
    } else {
        saturating_sum(tally_tests(tests.drop_last()), tests.last())
    }
}

/// The anomalies of a run: those of its patterns one after the other, as
/// `RunTally::record` appends them.
pub open spec fn tally_errors(errors: Seq<Seq<ErrorLocation>>) -> Seq<ErrorLocation>
    decreases errors.len(),
{
    if errors.len() == 0 {
        Seq::empty()
    } else {
        tally_errors(errors.drop_last()) + errors.last()
    }
}

/// A run over patterns `0, 1, ...` of one buffer, each counting `k` tests and
/// recording its anomalies against what was written, totals
/// `min(m * k, usize::MAX)` tests over `m` patterns, and lists its anomalies
/// by pattern, then by index.
pub proof fn lemma_run_totals(
    k: int,
    tests: Seq<int>,
    errors: Seq<Seq<ErrorLocation>>,
    mems: Seq<Seq<u64>>,
    expected: Seq<Seq<u64>>,
)
    requires
        0 <= k <= usize::MAX,
        tests.len() == errors.len(),
        errors.len() == mems.len(),
        mems.len() == expected.len(),
        errors.len() <= usize::MAX,
        forall|p: int| 0 <= p < tests.len() ==> #[trigger] tests[p] == k,
        forall|p: int|
            0 <= p < errors.len() ==> {
                &&& (#[trigger] mems[p]).len() <= expected[p].len()
                &&& mems[p].len() <= usize::MAX
                &&& errors[p] == recorded_errors(mems[p], expected[p], p as usize)
            },
    ensures
        tally_tests(tests) == (if tests.len() * k > usize::MAX {
            usize::MAX as int
        } else {
            tests.len() * k
        }),
        errors_ordered(tally_errors(errors)),
        forall|i: int|
            0 <= i < tally_errors(errors).len() ==> (#[trigger] tally_errors(errors)[i]).pattern_id
                < errors.len(),
    decreases errors.len(),
{
    if errors.len() == 0 {
        assert(tests.len() * k == 0);
    } else {
        let m = errors.len() as int;
        let last = m - 1;
        lemma_run_totals(k, tests.drop_last(), errors.drop_last(), mems.drop_last(), expected.drop_last());
        assert(m * k == (m - 1) * k + k && (m - 1) * k >= 0) by (nonlinear_arith)
            requires
                m >= 1,
                k >= 0,
        ;
        assert(tests.last() == tests[last]);
        assert(tests.drop_last().len() == m - 1);
        assert(tally_tests(tests) == saturating_sum(tally_tests(tests.drop_last()), k));
        let prev = tally_tests(tests.drop_last());
        assert(prev == (if (m - 1) * k > usize::MAX { usize::MAX as int } else { (m - 1) * k }));
        assert(tests.len() * k == m * k);
        assert(tally_tests(tests) == (if m * k > usize::MAX { usize::MAX as int } else { m * k }));
        lemma_recorded_errors_ordered(mems[last], expected[last], last as usize);
        assert(tally_errors(errors) == tally_errors(errors.drop_last()) + errors.last());
        lemma_append_ordered(tally_errors(errors.drop_last()), errors.last(), last as usize);
    }
}

} // verus!
