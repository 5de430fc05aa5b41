use vstd::prelude::*;
use crate::config::{AllocationError, MemoryTester, TestError};

verus! {

/// Bytes in a megabyte.
pub const BYTES_PER_MB: usize = 1024 * 1024;

/// Bytes in one word of the buffer.
pub const WORD_BYTES: usize = 8;

/// The number of words in a buffer of `memory_size_mb` megabytes.
pub open spec fn word_count(memory_size_mb: usize) -> int {
    (memory_size_mb * BYTES_PER_MB) / (WORD_BYTES as int)
}

/// The most words a buffer can hold: a `Vec` holds at most `isize::MAX` bytes.
pub open spec fn max_words() -> int {
    (isize::MAX as int) / (WORD_BYTES as int)
}

/// Whether a request for `memory_size_mb` megabytes is refused as too large:
/// its size in bytes overflows a `usize`, or its words do not fit in a `Vec`.
pub open spec fn allocation_too_large(memory_size_mb: usize) -> bool {
    memory_size_mb * BYTES_PER_MB > usize::MAX || word_count(memory_size_mb) > max_words()
}

/// A buffer of `n` words, every one of them `value`.
pub open spec fn uniform(n: int, value: u64) -> Seq<u64> {
    Seq::new(n as nat, |i: int| value)
}

/// Finishes a buffer once the allocator has answered the reservation of
/// `num_elements` words in the empty `memory`: `num_elements` zeros when it
/// granted it, `OutOfMemory` when it refused.
pub fn zeroed_if_granted(granted: bool, memory: Vec<u64>, num_elements: usize) -> (r: Result<Vec<u64>, TestError>)
    requires
        memory@.len() == 0,
    ensures
        granted ==> (r matches Ok(v) && v@ == uniform(num_elements as int, 0)),
        !granted ==> r == Err::<Vec<u64>, TestError>(TestError::MemoryAllocation(AllocationError::OutOfMemory)),
{
    if !granted {
        return Err(TestError::MemoryAllocation(AllocationError::OutOfMemory));
    }
    let mut memory = memory;
    let mut i: usize = 0;
    assert(memory@ =~= uniform(0, 0));
    while i < num_elements
        invariant
            i <= num_elements,
            memory@ == uniform(i as int, 0),
        decreases num_elements - i,
    {
        memory.push(0u64);
        i = i + 1;
    }
    Ok(memory)
}

impl MemoryTester {
    /// Allocates the buffer to be tested, all zeros. A request too large for
    /// a `usize` or a `Vec` is refused before anything is allocated; when the
    /// allocator cannot supply the buffer, `OutOfMemory` is returned.
    pub fn allocate_memory(&self) -> (r: Result<Vec<u64>, TestError>)
        ensures
            allocation_too_large(self.memory_size_mb) ==> r == Err::<Vec<u64>, TestError>(
                TestError::MemoryAllocation(AllocationError::SizeOverflow),
            ),
            !allocation_too_large(self.memory_size_mb) && self.memory_size_mb == 0 ==> r
                == Err::<Vec<u64>, TestError>(TestError::MemoryAllocation(AllocationError::TooSmall)),
            !allocation_too_large(self.memory_size_mb) && self.memory_size_mb > 0 ==> (
            r matches Ok(v) && v@ == uniform(word_count(self.memory_size_mb), 0)) || r == Err::<
                Vec<u64>,
                TestError,
            >(TestError::MemoryAllocation(AllocationError::OutOfMemory)),
            r matches Ok(v) ==> v@.len() == self.memory_size_mb * 131072 && forall|i: int|
                0 <= i < v@.len() ==> v@[i] == 0,
    {
        let size_bytes = match self.memory_size_mb.checked_mul(BYTES_PER_MB) {
            Some(b) => b,
            None => {
                return Err(TestError::MemoryAllocation(AllocationError::SizeOverflow));
            },
        };
        let num_elements: usize = size_bytes / WORD_BYTES;
        assert(num_elements == self.memory_size_mb * 131072) by (nonlinear_arith)
            requires
                size_bytes == self.memory_size_mb * 1048576,
                num_elements == size_bytes / 8,
        ;
        if num_elements == 0 {
            return Err(TestError::MemoryAllocation(AllocationError::TooSmall));
        }
        if num_elements > (isize::MAX as usize) / WORD_BYTES {
            return Err(TestError::MemoryAllocation(AllocationError::SizeOverflow));
        }
        let mut memory: Vec<u64> = Vec::new();
        let granted = memory.try_reserve(num_elements).is_ok();
        zeroed_if_granted(granted, memory, num_elements)
    }

    /// Writes `pattern` into every word of `memory`.
    pub fn fill_pattern(&self, memory: &mut [u64], pattern: u64)
        ensures
            final(memory)@ == uniform(old(memory)@.len() as int, pattern),
    {
        let n = memory.len();
        let mut i: usize = 0;
        while i < n
            invariant
                n == memory@.len(),
                n == old(memory)@.len(),
                i <= n,
                forall|j: int| 0 <= j < i ==> memory@[j] == pattern,
            decreases n - i,
        {
            memory[i] = pattern;
            i = i + 1;
        }
        assert(memory@ =~= uniform(n as int, pattern));
    }
}

} // verus!
