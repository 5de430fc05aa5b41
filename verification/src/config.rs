use vstd::prelude::*;

verus! {

/// The largest buffer, in megabytes, that a tester agrees to allocate.
pub const MAX_MEMORY_MB: usize = 32 * 1024;

/// The default distance, in bytes, between hammered rows.
pub const DEFAULT_STEP: usize = 4096;

/// The default seed of the random access mode.
pub const DEFAULT_SEED: u64 = 0xDEADBEEFCAFEBABE;

/// A file-system path, carried through unchanged.
#[verifier::external_type_specification]
#[verifier::external_body]
pub struct ExPathBuf(std::path::PathBuf);

/// The access pattern that a run applies to the buffer.
#[derive(Clone, Copy, Debug, PartialEq, Eq, Structural)]
pub enum Mode {
    Rowhammer,
    Sequential,
    Random,
    Checkerboard,
}

/// What a user asks for.
pub struct Cli {
    pub memory_size_mb: usize,
    pub hammer_count: usize,
    pub mode: Mode,
    pub verbose: bool,
    pub step_size: usize,
    pub log_path: Option<std::path::PathBuf>,
    pub seed: u64,
}

/// Why a configuration was refused.
#[derive(Clone, Copy, Debug, PartialEq, Eq, Structural)]
pub enum ConfigError {
    ZeroMemorySize,
    ZeroHammerCount,
    MemoryOverCap { requested: usize },
    ZeroStepSize,
    StepTooLarge,
}

/// Why the buffer could not be allocated.
#[derive(Clone, Copy, Debug, PartialEq, Eq, Structural)]
pub enum AllocationError {
    SizeOverflow,
    TooSmall,
    OutOfMemory,
}

/// The errors of the library.
#[derive(Clone, Copy, Debug, PartialEq, Eq, Structural)]
pub enum TestError {
    MemoryAllocation(AllocationError),
    InvalidConfig(ConfigError),
}

/// A validated test configuration.
pub struct MemoryTester {
    pub memory_size_mb: usize,
    pub hammer_count: usize,
    pub mode: Mode,
    pub verbose: bool,
    pub step_size: usize,
    pub log_path: Option<std::path::PathBuf>,
    pub rng_seed: u64,
}

/// The first rule, in the order they are checked, that a request breaks.
pub open spec fn config_violation(
    memory_size_mb: usize,
    hammer_count: usize,
    step_size: usize,
) -> Option<ConfigError> {
    if memory_size_mb == 0 {
        Some(ConfigError::ZeroMemorySize)
    } else if hammer_count == 0 {
        Some(ConfigError::ZeroHammerCount)
    } else if memory_size_mb > MAX_MEMORY_MB {
        Some(ConfigError::MemoryOverCap { requested: memory_size_mb })
    } else if step_size == 0 {
        Some(ConfigError::ZeroStepSize)
    } else {
        None
    }
}

impl MemoryTester {
    /// A tester whose settings pass every rule that `new` checks.
    pub open spec fn valid(&self) -> bool {
        config_violation(self.memory_size_mb, self.hammer_count, self.step_size).is_none()
    }

    /// Checks a request and builds a tester from it.
    pub fn new(cli: Cli) -> (r: Result<MemoryTester, TestError>)
        ensures
            r is Ok <==> (0 < cli.memory_size_mb <= MAX_MEMORY_MB && cli.hammer_count > 0
                && cli.step_size > 0),
            cli.memory_size_mb == 0 ==> r == Err::<MemoryTester, TestError>(
                TestError::InvalidConfig(ConfigError::ZeroMemorySize),
            ),
            match config_violation(cli.memory_size_mb, cli.hammer_count, cli.step_size) {
                Some(e) => r == Err::<MemoryTester, TestError>(TestError::InvalidConfig(e)),
                None => r matches Ok(t) && {
                    &&& t.memory_size_mb == cli.memory_size_mb
                    &&& t.hammer_count == cli.hammer_count
                    &&& t.mode == cli.mode
                    &&& t.verbose == cli.verbose
                    &&& t.step_size == cli.step_size
                    &&& t.log_path == cli.log_path
                    &&& t.rng_seed == cli.seed
                    &&& t.valid()
                },
            },
    {
        if cli.memory_size_mb == 0 {
            return Err(TestError::InvalidConfig(ConfigError::ZeroMemorySize));
        }
        if cli.hammer_count == 0 {
            return Err(TestError::InvalidConfig(ConfigError::ZeroHammerCount));
        }
        if cli.memory_size_mb > MAX_MEMORY_MB {
            return Err(
                TestError::InvalidConfig(
                    ConfigError::MemoryOverCap { requested: cli.memory_size_mb },
                ),
            );
        }
        if cli.step_size == 0 {
            return Err(TestError::InvalidConfig(ConfigError::ZeroStepSize));
        }
        Ok(MemoryTester {
            memory_size_mb: cli.memory_size_mb,
            hammer_count: cli.hammer_count,
            mode: cli.mode,
            verbose: cli.verbose,
            step_size: cli.step_size,
            log_path: cli.log_path,
            rng_seed: cli.seed,
        })
    }
}

} // verus!
