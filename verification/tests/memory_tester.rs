use rusty_checker::config::{AllocationError, Cli, ConfigError, MemoryTester, Mode, TestError, MAX_MEMORY_MB};
use rusty_checker::hammer::ProgressMark;
use rusty_checker::integrity::{ErrorLocation, MAX_RECORDED_ERRORS};
use rusty_checker::logfile::{LogFile, PathFacts};
use rusty_checker::patterns::{pattern, PATTERN_COUNT};
use rusty_checker::run::{PatternOutcome, RunTally};
use std::collections::HashMap;
use std::path::PathBuf;

fn cli(memory_size_mb: usize, hammer_count: usize, mode: Mode, step_size: usize) -> Cli {
    Cli {
        memory_size_mb,
        hammer_count,
        mode,
        verbose: false,
        step_size,
        log_path: None,
        seed: 0xDEADBEEFCAFEBABE,
    }
}

fn tester(mode: Mode, hammer_count: usize, step_size: usize, verbose: bool) -> MemoryTester {
    MemoryTester {
        memory_size_mb: 1,
        hammer_count,
        mode,
        verbose,
        step_size,
        log_path: None,
        rng_seed: 42,
    }
}

fn config_error(r: Result<MemoryTester, TestError>) -> ConfigError {
    match r {
        Err(TestError::InvalidConfig(e)) => e,
        _ => panic!("expected a configuration error"),
    }
}

#[test]
fn new_accepts_valid_request() {
    let mut c = cli(64, 10, Mode::Sequential, 4096);
    c.verbose = true;
    c.log_path = Some(PathBuf::from("/tmp/x.log"));
    c.seed = 7;
    let t = match MemoryTester::new(c) {
        Ok(t) => t,
        Err(_) => panic!("valid request refused"),
    };
    assert_eq!(t.memory_size_mb, 64);
    assert_eq!(t.hammer_count, 10);
    assert_eq!(t.mode, Mode::Sequential);
    assert!(t.verbose);
    assert_eq!(t.step_size, 4096);
    assert_eq!(t.log_path, Some(PathBuf::from("/tmp/x.log")));
    assert_eq!(t.rng_seed, 7);
}

#[test]
fn new_refuses_zero_memory() {
    assert_eq!(config_error(MemoryTester::new(cli(0, 10, Mode::Rowhammer, 4096))), ConfigError::ZeroMemorySize);
}

#[test]
fn new_refuses_zero_hammer_count() {
    assert_eq!(config_error(MemoryTester::new(cli(64, 0, Mode::Rowhammer, 4096))), ConfigError::ZeroHammerCount);
}

#[test]
fn new_checks_memory_before_hammer_count() {
    assert_eq!(config_error(MemoryTester::new(cli(0, 0, Mode::Rowhammer, 0))), ConfigError::ZeroMemorySize);
}

#[test]
fn new_caps_memory() {
    assert_eq!(
        config_error(MemoryTester::new(cli(MAX_MEMORY_MB + 1, 10, Mode::Rowhammer, 4096))),
        ConfigError::MemoryOverCap { requested: MAX_MEMORY_MB + 1 }
    );
    assert!(MemoryTester::new(cli(MAX_MEMORY_MB, 10, Mode::Rowhammer, 4096)).is_ok());
    assert_eq!(MAX_MEMORY_MB, 32768);
}

#[test]
fn new_refuses_zero_step() {
    assert_eq!(config_error(MemoryTester::new(cli(64, 10, Mode::Rowhammer, 0))), ConfigError::ZeroStepSize);
}

#[test]
fn allocate_one_megabyte_of_zeros() {
    let t = tester(Mode::Sequential, 1, 4096, false);
    let mem = t.allocate_memory().unwrap();
    assert_eq!(mem.len(), 131072);
    assert!(mem.iter().all(|&w| w == 0));
}

#[test]
fn allocate_refuses_empty_and_overflowing_sizes() {
    let mut t = tester(Mode::Sequential, 1, 4096, false);
    t.memory_size_mb = 0;
    assert_eq!(t.allocate_memory(), Err(TestError::MemoryAllocation(AllocationError::TooSmall)));
    t.memory_size_mb = usize::MAX / 1024;
    assert_eq!(t.allocate_memory(), Err(TestError::MemoryAllocation(AllocationError::SizeOverflow)));
}

#[test]
fn allocate_refuses_more_than_a_vec_can_hold() {
    let mut t = tester(Mode::Sequential, 1, 4096, false);
    // 2^43 MB is 2^63 bytes: the byte count fits a 64-bit usize, a Vec cannot hold it.
    t.memory_size_mb = 1usize << (usize::BITS - 21);
    assert_eq!(t.allocate_memory(), Err(TestError::MemoryAllocation(AllocationError::SizeOverflow)));
}

#[test]
fn patterns_are_the_four_fills() {
    assert_eq!(PATTERN_COUNT, 4);
    assert_eq!(pattern(0), 0xAAAAAAAAAAAAAAAA);
    assert_eq!(pattern(1), 0x5555555555555555);
    assert_eq!(pattern(2), 0xFFFFFFFFFFFFFFFF);
    assert_eq!(pattern(3), 0);
}

#[test]
fn fill_pattern_sets_every_word() {
    let t = tester(Mode::Sequential, 1, 4096, false);
    let mut mem = vec![1u64, 2, 3, 4, 5];
    t.fill_pattern(&mut mem, 0x1234);
    assert_eq!(mem, vec![0x1234u64; 5]);
}

#[test]
fn rowhammer_touches_neighbours_of_each_centre() {
    // 16 bytes = 2 words; centres 2, 4, 6 in a buffer of 10 words.
    let t = tester(Mode::Rowhammer, 3, 16, false);
    let mut mem = vec![0u64; 10];
    let run = t.test_rowhammer(&mut mem).unwrap();
    assert_eq!(run.tests, 3);
    assert!(run.progress.is_empty());
    assert_eq!(mem, vec![3, 0, 3, 0, 6, 0, 3, 0, 3, 0]);
}

#[test]
fn rowhammer_step_not_a_word_multiple_is_one_word() {
    let t = tester(Mode::Rowhammer, 1, 12, false);
    assert_eq!(t.rowhammer_elem_step(), 1);
    let mut mem = vec![0u64; 5];
    let run = t.test_rowhammer(&mut mem).unwrap();
    // centres 1, 2, 3
    assert_eq!(run.tests, 3);
    assert_eq!(mem, vec![1, 1, 2, 1, 1]);
}

#[test]
fn rowhammer_wraps_around() {
    let t = tester(Mode::Rowhammer, 2, 8, false);
    let mut mem = vec![u64::MAX, 0, u64::MAX, 0];
    let run = t.test_rowhammer(&mut mem).unwrap();
    assert_eq!(run.tests, 2);
    assert_eq!(mem, vec![1, 2, 1, 2]);
}

#[test]
fn rowhammer_refuses_large_step() {
    let t = tester(Mode::Rowhammer, 1, 4096, false);
    let mut mem = vec![7u64; 1024];
    assert_eq!(t.rowhammer_elem_step(), 512);
    assert!(matches!(
        t.test_rowhammer(&mut mem),
        Err(TestError::InvalidConfig(ConfigError::StepTooLarge))
    ));
    assert_eq!(mem, vec![7u64; 1024]);
    let mut mem = vec![7u64; 1026];
    assert!(t.test_rowhammer(&mut mem).is_ok());
}

#[test]
fn rowhammer_reports_every_thousand_rows() {
    let t = tester(Mode::Rowhammer, 1, 8, true);
    let mut mem = vec![0u64; 2003];
    let run = t.test_rowhammer(&mut mem).unwrap();
    assert_eq!(run.tests, 2001);
    assert_eq!(
        run.progress,
        vec![
            ProgressMark { position: 1000, total: 2003, count: 1000 },
            ProgressMark { position: 2000, total: 2003, count: 2000 },
        ]
    );
}

#[test]
fn sequential_increments_every_word() {
    let t = tester(Mode::Sequential, 5, 4096, false);
    let mut mem = vec![0u64, 10, u64::MAX - 1];
    let run = t.test_sequential(&mut mem);
    assert_eq!(run.tests, 3);
    assert!(run.progress.is_empty());
    assert_eq!(mem, vec![5, 15, 3]);
}

#[test]
fn sequential_reports_every_hundred_thousand_words() {
    let t = tester(Mode::Sequential, 1, 4096, true);
    let mut mem = vec![0u64; 250_000];
    let run = t.test_sequential(&mut mem);
    assert_eq!(
        run.progress,
        vec![
            ProgressMark { position: 100_000, total: 250_000, count: 100_000 },
            ProgressMark { position: 200_000, total: 250_000, count: 200_000 },
        ]
    );
}

#[test]
fn random_makes_capped_number_of_increments() {
    let t = tester(Mode::Random, 1, 4096, false);
    let mut mem = vec![0u64; 100];
    let r = t.test_random(&mut mem);
    // 1 * 10000 capped at twice the buffer
    assert_eq!(r.run.tests, 200);
    assert_eq!(mem.iter().sum::<u64>(), 200);
    assert_eq!(r.hits.values().sum::<u64>(), 200);
    for (i, &w) in mem.iter().enumerate() {
        assert_eq!(w, r.hits.get(&i).copied().unwrap_or(0));
    }
}

#[test]
fn random_uncapped_count_and_progress() {
    let t = tester(Mode::Random, 1, 4096, true);
    let mut mem = vec![0u64; 20_000];
    let run = t.test_random(&mut mem).run;
    assert_eq!(run.tests, 10_000);
    assert_eq!(mem.iter().sum::<u64>(), 10_000);
    assert!(run.progress.is_empty());
    let t = tester(Mode::Random, 3, 4096, true);
    let mut mem = vec![0u64; 20_000];
    let run = t.test_random(&mut mem).run;
    assert_eq!(run.tests, 30_000);
    assert_eq!(
        run.progress,
        vec![
            ProgressMark { position: 10_000, total: 30_000, count: 10_000 },
            ProgressMark { position: 20_000, total: 30_000, count: 20_000 },
        ]
    );
}

#[test]
fn random_is_repeatable_with_one_seed() {
    let t = tester(Mode::Random, 1, 4096, false);
    let mut a = vec![0u64; 1000];
    let mut b = vec![0u64; 1000];
    t.test_random(&mut a);
    t.test_random(&mut b);
    assert_eq!(a, b);
    assert!(a.iter().any(|&w| w != a[0]));
}

#[test]
fn random_on_empty_buffer_does_nothing() {
    let t = tester(Mode::Random, 4, 4096, false);
    let mut mem: Vec<u64> = Vec::new();
    assert_eq!(t.test_random(&mut mem).run.tests, 0);
}

#[test]
fn checkerboard_last_pass_wins() {
    let t = tester(Mode::Checkerboard, 1, 4096, false);
    let mut mem = vec![0u64; 4];
    let run = t.test_checkerboard(&mut mem);
    assert_eq!(run.tests, 4);
    assert_eq!(mem, vec![0xAAAAAAAAAAAAAAAA, 0x5555555555555555, 0xAAAAAAAAAAAAAAAA, 0x5555555555555555]);
    let t = tester(Mode::Checkerboard, 2, 4096, false);
    let run = t.test_checkerboard(&mut mem);
    assert_eq!(run.tests, 8);
    assert_eq!(mem, vec![0x5555555555555555, 0xAAAAAAAAAAAAAAAA, 0x5555555555555555, 0xAAAAAAAAAAAAAAAA]);
}

#[test]
fn checkerboard_reports_from_pass_zero() {
    let t = tester(Mode::Checkerboard, 201, 4096, true);
    let mut mem = vec![0u64; 3];
    let run = t.test_checkerboard(&mut mem);
    assert_eq!(run.tests, 603);
    assert_eq!(
        run.progress,
        vec![
            ProgressMark { position: 0, total: 201, count: 0 },
            ProgressMark { position: 100, total: 201, count: 100 },
            ProgressMark { position: 200, total: 201, count: 200 },
        ]
    );
}

#[test]
fn check_integrity_records_mismatches_in_order() {
    let t = tester(Mode::Sequential, 1, 4096, false);
    let mem = vec![5u64, 6, 5, 7];
    let errors = t.check_integrity(&mem, 5, 2);
    assert_eq!(
        errors,
        vec![
            ErrorLocation { index: 1, expected: 5, actual: 6, pattern_id: 2 },
            ErrorLocation { index: 3, expected: 5, actual: 7, pattern_id: 2 },
        ]
    );
    assert!(t.check_integrity(&[5u64, 5], 5, 0).is_empty());
}

#[test]
fn check_integrity_stops_at_the_cap() {
    let t = tester(Mode::Sequential, 1, 4096, false);
    let mem = vec![1u64; MAX_RECORDED_ERRORS + 5];
    let errors = t.check_integrity(&mem, 0, 0);
    assert_eq!(errors.len(), MAX_RECORDED_ERRORS);
    assert_eq!(errors[MAX_RECORDED_ERRORS - 1].index, MAX_RECORDED_ERRORS - 1);
}

#[test]
fn run_pattern_without_flips_records_nothing() {
    for mode in [Mode::Rowhammer, Mode::Sequential, Mode::Random, Mode::Checkerboard] {
        let t = tester(mode, 3, 16, false);
        let mut mem = vec![0u64; 64];
        for pid in 0..PATTERN_COUNT {
            let out = t.run_pattern(&mut mem, pid).unwrap();
            assert_eq!(out.pattern_id, pid);
            assert_eq!(out.pattern, pattern(pid));
            assert!(out.errors.is_empty());
        }
    }
}

#[test]
fn run_pattern_sequential_writes_pattern_plus_count() {
    let t = tester(Mode::Sequential, 1, 4096, false);
    let mut mem = vec![0u64; 4];
    let out = t.run_pattern(&mut mem, 2).unwrap();
    assert_eq!(out.run.tests, 4);
    assert_eq!(mem, vec![0u64; 4]);
    assert!(out.errors.is_empty());
}

#[test]
fn check_written_reports_a_flipped_word() {
    let t = tester(Mode::Sequential, 2, 4096, false);
    let mut mem = vec![0u64; 5];
    let out = t.run_pattern(&mut mem, 3).unwrap();
    assert!(out.errors.is_empty());
    mem[3] ^= 1 << 7;
    let errors = t.check_written(&mem, 0, 3, &out.hits);
    assert_eq!(errors, vec![ErrorLocation { index: 3, expected: 2, actual: 2 | (1 << 7), pattern_id: 3 }]);
}

#[test]
fn check_written_knows_each_mode() {
    let empty: HashMap<usize, u64> = HashMap::new();
    // rowhammer, step of two words over ten words: hits 1,0,1,0,2,0,1,0,1,0
    let t = tester(Mode::Rowhammer, 3, 16, false);
    let expected: Vec<u64> = (0..10).map(|j| t.written_word(5, 10, j, &empty)).collect();
    assert_eq!(expected, vec![8, 5, 8, 5, 11, 5, 8, 5, 8, 5]);
    let t = tester(Mode::Checkerboard, 2, 16, false);
    assert_eq!(t.written_word(7, 4, 0, &empty), 0x5555555555555555);
    assert_eq!(t.written_word(7, 4, 1, &empty), 0xAAAAAAAAAAAAAAAA);
    let t = tester(Mode::Random, 1, 16, false);
    let mut hits = HashMap::new();
    hits.insert(2usize, 4u64);
    assert_eq!(t.written_word(u64::MAX, 4, 2, &hits), 3);
    assert_eq!(t.written_word(u64::MAX, 4, 1, &hits), u64::MAX);
    let mem = vec![u64::MAX, u64::MAX, 3, 9];
    let errors = t.check_written(&mem, u64::MAX, 1, &hits);
    assert_eq!(errors, vec![ErrorLocation { index: 3, expected: u64::MAX, actual: 9, pattern_id: 1 }]);
}

#[test]
fn check_integrity_after_checkerboard_flags_odd_words() {
    let t = tester(Mode::Checkerboard, 1, 4096, false);
    let mut mem = vec![0u64; 4];
    t.test_checkerboard(&mut mem);
    let idx: Vec<usize> = t.check_integrity(&mem, pattern(0), 0).iter().map(|e| e.index).collect();
    assert_eq!(idx, vec![1, 3]);
}

#[test]
fn run_pattern_rowhammer_refusal_leaves_fill() {
    let t = tester(Mode::Rowhammer, 1, 4096, false);
    let mut mem = vec![0u64; 8];
    assert!(matches!(
        t.run_pattern(&mut mem, 1),
        Err(TestError::InvalidConfig(ConfigError::StepTooLarge))
    ));
    assert_eq!(mem, vec![0x5555555555555555u64; 8]);
}

#[test]
fn fits_checks_counts() {
    let t = tester(Mode::Checkerboard, usize::MAX, 4096, false);
    assert!(!t.fits(2));
    assert!(t.fits(1));
    let t = tester(Mode::Random, 1, 4096, false);
    assert!(!t.fits(usize::MAX));
    assert!(t.fits(usize::MAX / 2));
    let t = tester(Mode::Sequential, usize::MAX, 4096, false);
    assert!(t.fits(usize::MAX));
}

#[test]
fn tally_saturates_and_collects() {
    let e = |index, pattern_id| ErrorLocation { index, expected: 0, actual: 1, pattern_id };
    let mut tally = RunTally::new();
    assert_eq!(tally.total_tests, 0);
    assert_eq!(tally.patterns_done, 0);
    tally.record(3, &vec![e(1, 0), e(4, 0)]);
    assert_eq!(tally.total_tests, 3);
    assert_eq!(tally.anomalies_found(), 2);
    tally.record(usize::MAX, &vec![e(0, 1)]);
    assert_eq!(tally.total_tests, usize::MAX);
    assert_eq!(tally.patterns_done, 2);
    assert_eq!(tally.anomalies_found(), 3);
    assert_eq!(tally.error_locations, vec![e(1, 0), e(4, 0), e(0, 1)]);
}

#[test]
fn four_pattern_run_totals() {
    let t = tester(Mode::Sequential, 1, 4096, false);
    let mut mem = vec![0u64; 6];
    let mut tally = RunTally::new();
    for pid in 0..PATTERN_COUNT {
        let out: PatternOutcome = t.run_next(&mut mem, &mut tally).unwrap();
        assert_eq!(out.pattern_id, pid);
        assert_eq!(tally.patterns_done, pid + 1);
    }
    assert_eq!(tally.total_tests, 24);
    assert_eq!(tally.anomalies_found(), 0);
}

#[test]
fn run_next_refusal_leaves_tally() {
    let t = tester(Mode::Rowhammer, 1, 4096, false);
    let mut mem = vec![0u64; 8];
    let mut tally = RunTally::new();
    assert!(matches!(
        t.run_next(&mut mem, &mut tally),
        Err(TestError::InvalidConfig(ConfigError::StepTooLarge))
    ));
    assert_eq!(tally.patterns_done, 0);
    assert_eq!(tally.total_tests, 0);
}

#[test]
fn random_outcomes_count_draws_and_others_do_not() {
    let t = tester(Mode::Random, 1, 4096, false);
    let mut mem = vec![0u64; 50];
    let out = t.run_pattern(&mut mem, 3).unwrap();
    assert!(out.rng.is_some());
    assert_eq!(out.hits.values().sum::<u64>(), 100);
    let t = tester(Mode::Sequential, 1, 4096, false);
    let out = t.run_pattern(&mut mem, 3).unwrap();
    assert!(out.rng.is_none());
    assert!(out.hits.is_empty());
}

#[test]
fn allocate_reports_out_of_memory() {
    if usize::BITS == 64 {
        let mut t = tester(Mode::Sequential, 1, 4096, false);
        // 2^40 MB: within what a Vec may hold, beyond any allocator.
        t.memory_size_mb = 1usize << 40;
        assert_eq!(t.allocate_memory(), Err(TestError::MemoryAllocation(AllocationError::OutOfMemory)));
    }
}

#[test]
fn checkerboard_depends_on_length_only() {
    let t = tester(Mode::Checkerboard, 3, 4096, false);
    let mut a = vec![1u64, 2, 3];
    let mut b = vec![9u64, 8, 7];
    t.test_checkerboard(&mut a);
    t.test_checkerboard(&mut b);
    assert_eq!(a, b);
    let before = a.clone();
    t.test_checkerboard(&mut a);
    assert_eq!(a, before);
}

#[test]
fn log_file_choice_follows_the_given_path() {
    let facts = |is_dir, ends_with_log, is_existing_file, has_parent| PathFacts {
        is_dir,
        ends_with_log,
        is_existing_file,
        has_parent,
    };
    let mut t = tester(Mode::Sequential, 1, 4096, false);
    assert_eq!(t.log_file_choice(facts(true, true, true, true)), LogFile::Default);
    t.log_path = Some(PathBuf::from("logs"));
    assert_eq!(t.log_file_choice(facts(true, false, false, true)), LogFile::InGivenDirectory);
    assert_eq!(t.log_file_choice(facts(false, true, false, false)), LogFile::Given);
    assert_eq!(t.log_file_choice(facts(false, false, true, false)), LogFile::Given);
    assert_eq!(t.log_file_choice(facts(false, false, false, true)), LogFile::Given);
    assert_eq!(t.log_file_choice(facts(false, false, false, false)), LogFile::Default);
}

#[test]
fn fill_then_check_finds_nothing() {
    let t = tester(Mode::Sequential, 1, 4096, false);
    let mut mem = vec![3u64, 9, 27];
    for pid in 0..PATTERN_COUNT {
        t.fill_pattern(&mut mem, pattern(pid));
        assert!(t.check_integrity(&mem, pattern(pid), pid).is_empty());
    }
}
