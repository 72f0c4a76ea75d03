use vstd::prelude::*;

verus! {

/// Counters of the work a machine has done. Each only ever grows.
#[derive(Debug, Clone, Copy, PartialEq, Eq, Structural)]
pub struct Profile {
    pub executed_instructions: usize,
    pub total_memory_reads: usize,
    pub total_memory_writes: usize,
    pub total_stack_pushes: usize,
    pub total_stack_pops: usize,
}

impl Profile {
    /// The largest value a counter may hold before an instruction is fetched.
    /// One instruction raises a counter by at most two.
    pub open spec fn ceiling() -> usize {
        (usize::MAX - 2) as usize
    }

    /// Whether every counter leaves room for one more instruction.
    pub open spec fn has_headroom(self) -> bool {
        &&& self.executed_instructions <= Self::ceiling()
        &&& self.total_memory_reads <= Self::ceiling()
        &&& self.total_memory_writes <= Self::ceiling()
        &&& self.total_stack_pushes <= Self::ceiling()
        &&& self.total_stack_pops <= Self::ceiling()
    }

    /// Whether no counter of `self` is below the same counter of `earlier`.
    pub open spec fn at_least(self, earlier: Profile) -> bool {
        &&& self.executed_instructions >= earlier.executed_instructions
        &&& self.total_memory_reads >= earlier.total_memory_reads
        &&& self.total_memory_writes >= earlier.total_memory_writes
        &&& self.total_stack_pushes >= earlier.total_stack_pushes
        &&& self.total_stack_pops >= earlier.total_stack_pops
    }

    /// A profile with every counter at zero.
    pub fn new() -> (r: Self)
        ensures
            r == (Profile {
                executed_instructions: 0,
                total_memory_reads: 0,
                total_memory_writes: 0,
                total_stack_pushes: 0,
                total_stack_pops: 0,
            }),
    {
        Self {
            executed_instructions: 0,
            total_memory_reads: 0,
            total_memory_writes: 0,
            total_stack_pushes: 0,
            total_stack_pops: 0,
        }
    }

    /// Tests `has_headroom`.
    pub fn check_headroom(&self) -> (r: bool)
        ensures
            r == self.has_headroom(),
    {
        let ceiling: usize = usize::MAX - 2;
        self.executed_instructions <= ceiling && self.total_memory_reads <= ceiling
            && self.total_memory_writes <= ceiling && self.total_stack_pushes <= ceiling
            && self.total_stack_pops <= ceiling
    }
}

} // verus!
