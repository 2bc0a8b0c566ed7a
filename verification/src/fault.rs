//! The taxonomy of fatal conditions.
//!
//! In the running kernel every one of these halts the CPU: they signal a
//! corrupted internal model that cannot be continued from. The operations of
//! this crate report the exact condition instead of aborting, so that the
//! boot glue can print it and halt, and so that a test can assert on which
//! condition fired.

use vstd::prelude::*;

verus! {

/// A fatal condition: an invariant violation, resource exhaustion, or a
/// hardware-capability mismatch. There is no recovery tier; the caller
/// decides to halt.
#[derive(Clone, Copy, Debug, PartialEq, Eq, Structural)]
pub enum Fault {
    /// A page range was freed at an address that is not page-aligned.
    FreeMisaligned,
    /// A page range was freed outside the managed region.
    FreeOutOfRange,
    /// A page in a freed range was not allocated.
    DoubleFree,
    /// A page-table entry was mapped while already present.
    DoubleMap,
    /// A page-directory entry was mapped while already present.
    DoubleMapLarge,
    /// The entry governing an unmapped address is absent.
    UnmapAbsent,
    /// The physical memory manager has no free run of the requested length.
    OutOfPhysicalMemory,
    /// The virtual page allocator has no free run of the requested length.
    OutOfVirtualMemory,
    /// A heap allocation would run past the heap's extent.
    HeapExhausted,
    /// A required CPU feature (4 MiB pages) is absent.
    FeatureAbsent,
}

} // verus!
