//! Memory-management and boot-information core of a freestanding 32-bit x86
//! kernel: a boot-information tag reader, a bitmap-based physical page
//! allocator, a virtual page allocator over the top quarter of the address
//! space, the two-level paging structures with map/unmap, a forward-only bump
//! heap, and the interrupt-safe mutual-exclusion primitive they rely on.
//!
//! All addresses are 32 bits; pages are 4 KiB, large pages 4 MiB. Invariant
//! violations (double map, double free, out-of-range or misaligned free) are
//! fatal in the kernel; here each one is reported as a distinct [`fault::Fault`]
//! so that a caller can halt on exactly the condition that fired.

pub mod align;
pub mod bitmap;
pub mod cpuid;
pub mod fault;
pub mod heap;
pub mod idt;
pub mod isituninit;
pub mod logger;
pub mod multiboot2;
pub mod mutex;
pub mod pmm;
pub mod virt_page_alloc;
pub mod vmm;
