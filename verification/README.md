# rusty_checker

A memory stress tester in the style of RowHammer, as a Verus-verified library
with a thin command-line front end.

- `src/config.rs`: the request (`Cli`), the modes, the errors, and
  `MemoryTester::new`, which checks a request against the configuration rules.
- `src/buffer.rs`: allocating the zeroed buffer and filling it with a pattern.
- `src/hammer.rs`: the rowhammer and sequential access patterns and their
  progress marks.
- `src/rng.rs`: `rand`'s generator with a record of its seed and draws.
- `src/random.rs`: the random access pattern, drawing indices with `rand`
  and counting how often each word was picked.
- `src/patterns.rs`: the four fill patterns and the checkerboard pattern.
- `src/integrity.rs`: recording the words that differ from what was expected.
- `src/run.rs`: one pattern's fill, test and check against what the fill and
  the test wrote, and the run's totals, kept pattern by pattern.
- `src/logfile.rs`: choosing where the log goes.
- `src/laws.rs`: properties of the library as a whole, proved.
- `src/arith.rs`: wrap-around arithmetic and facts on multiples.
- `app/main.rs`: argument parsing, the log file, timing and printing.
