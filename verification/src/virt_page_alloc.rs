//! The virtual page allocator.
//!
//! Manages the top quarter of the 32-bit virtual address space — addresses
//! from `0xC000_0000` up — as an allocatable bitmap of 4 KiB pages, with the
//! same first-fit scan as the physical memory manager. This allocator tracks
//! address-space reservations only: it neither owns physical memory nor
//! establishes page-table mappings.

use vstd::prelude::*;

use crate::bitmap::{all_set, count_free, free_run, spec_allocated, spec_freed, Bitmap};
use crate::fault::Fault;

verus! {

/// First managed virtual address: the top quarter of the 32-bit space.
pub const VIRT_BASE: u32 = 0xC000_0000;

/// Number of managed 4 KiB pages: one quarter of the 32-bit space.
pub const VIRT_PAGE_COUNT: usize = 0x4_0000;

/// Allocator over the reserved high region of the virtual address space.
pub struct VirtPageAllocator {
    bitmap: Bitmap,
}

impl VirtPageAllocator {
    /// One bit per managed page; set means reserved.
    pub closed spec fn bits(&self) -> Seq<bool> {
        self.bitmap@
    }

    /// The bitmap covers exactly the managed pages.
    pub closed spec fn wf(&self) -> bool {
        &&& self.bitmap.wf()
        &&& self.bitmap@.len() == VIRT_PAGE_COUNT
    }

    /// An allocator with the whole region free.
    pub fn new() -> (r: VirtPageAllocator)
        ensures
            r.wf(),
            forall|i: int| 0 <= i < r.bits().len() ==> !r.bits()[i],
    {
        VirtPageAllocator { bitmap: Bitmap::new(VIRT_PAGE_COUNT) }
    }

    /// First-fit reservation of `count` contiguous virtual pages: returns
    /// the page-aligned base of the lowest all-free run, now marked
    /// reserved, or `None` — with nothing changed — when no such run exists.
    pub fn allocate(&mut self, count: usize) -> (r: Option<u32>)
        requires
            old(self).wf(),
        ensures
            final(self).wf(),
            match r {
                Some(addr) => {
                    let bit = (addr as int - VIRT_BASE as int) / 4096;
                    &&& addr as int == VIRT_BASE as int + 4096 * bit
                    &&& addr as int % 4096 == 0
                    &&& addr as int + count as int * 4096 <= 0x1_0000_0000
                    &&& free_run(old(self).bits(), bit, count as int)
                    &&& forall|j: int| 0 <= j < bit ==> !free_run(old(self).bits(), j, count as int)
                    &&& final(self).bits() == spec_allocated(old(self).bits(), bit, count as int)
                },
                None => {
                    &&& forall|j: int| !free_run(old(self).bits(), j, count as int)
                    &&& *final(self) == *old(self)
                },
            },
    {
        let bit = match self.bitmap.take_bits(count) {
            Some(bit) => bit,
            None => {
                return None;
            },
        };
        proof {
            assert(bit + count <= VIRT_PAGE_COUNT);
            assert(4096 * (bit as int) + 4096 * (count as int) <= 4096 * (VIRT_PAGE_COUNT as int));
            if count == 0 {
                // First fit places an empty run at the very first bit.
                assert(free_run(old(self).bits(), 0, 0));
                assert(bit == 0);
            }
        }
        let addr: u32 = VIRT_BASE + (bit as u32) * 4096;
        proof {
            vstd::arithmetic::div_mod::lemma_fundamental_div_mod_converse(
                addr as int,
                4096,
                0xC0000 + bit as int,
                0,
            );
            vstd::arithmetic::div_mod::lemma_fundamental_div_mod_converse(
                addr as int - VIRT_BASE as int,
                4096,
                bit as int,
                0,
            );
        }
        Some(addr)
    }

    /// Releases `count` pages starting at `addr`. The range must be
    /// page-aligned, lie entirely inside the managed region, and be entirely
    /// reserved; otherwise the exact fault is reported and nothing changes.
    pub fn free(&mut self, addr: u32, count: usize) -> (r: Result<(), Fault>)
        requires
            old(self).wf(),
        ensures
            final(self).wf(),
            ({
                let in_range = VIRT_BASE as int <= addr as int && addr as int + count as int * 4096
                    <= 0x1_0000_0000;
                let aligned = addr as int % 4096 == 0;
                let bit = (addr as int - VIRT_BASE as int) / 4096;
                &&& (r == Err::<(), Fault>(Fault::FreeOutOfRange) <==> !in_range)
                &&& (r == Err::<(), Fault>(Fault::FreeMisaligned) <==> in_range && !aligned)
                &&& (r == Err::<(), Fault>(Fault::DoubleFree) <==> in_range && aligned && !all_set(
                    old(self).bits(),
                    bit,
                    count as int,
                ))
                &&& (r is Ok <==> in_range && aligned && all_set(old(self).bits(), bit, count as int))
                &&& (r is Ok ==> final(self).bits() == spec_freed(old(self).bits(), bit, count as int))
                &&& (r is Err ==> *final(self) == *old(self))
            }),
    {
        if addr < VIRT_BASE || count > VIRT_PAGE_COUNT {
            return Err(Fault::FreeOutOfRange);
        }
        if addr as u64 + (count as u64) * 4096 > 0x1_0000_0000u64 {
            return Err(Fault::FreeOutOfRange);
        }
        if addr % 4096 != 0 {
            return Err(Fault::FreeMisaligned);
        }
        proof {
            vstd::arithmetic::div_mod::lemma_fundamental_div_mod(addr as int, 4096);
            let qa = addr as int / 4096;
            assert(addr as int - VIRT_BASE as int == 4096 * (qa - 0xC0000));
            vstd::arithmetic::div_mod::lemma_fundamental_div_mod_converse(
                addr as int - VIRT_BASE as int,
                4096,
                qa - 0xC0000,
                0,
            );
        }
        let bit = ((addr - VIRT_BASE) / 4096) as usize;
        proof {
            assert(4096 * (bit as int) + 4096 * (count as int) <= 4096 * (VIRT_PAGE_COUNT as int));
            assert(bit + count <= VIRT_PAGE_COUNT);
        }
        let r = self.bitmap.free_bits(bit, count);
        proof {
            let b = (addr as int - VIRT_BASE as int) / 4096;
            assert(all_set(old(self).bits(), b, count as int) == all_set(
                old(self).bits(),
                bit as int,
                count as int,
            ));
        }
        match r {
            Ok(()) => Ok(()),
            Err(f) => Err(f),
        }
    }

    /// The number of pages currently free.
    pub fn free_page_count(&self) -> (r: usize)
        requires
            self.wf(),
        ensures
            r == count_free(self.bits()),
    {
        self.bitmap.free_count()
    }
}

/// An allocator over the reserved high region, all of it free; see
/// [`VirtPageAllocator::new`].
pub fn init() -> (r: VirtPageAllocator)
    ensures
        r.wf(),
        forall|i: int| 0 <= i < r.bits().len() ==> !r.bits()[i],
{
    VirtPageAllocator::new()
}

/// Reserves `count` contiguous virtual pages; see
/// [`VirtPageAllocator::allocate`].
pub fn allocate(vpa: &mut VirtPageAllocator, count: usize) -> (r: Option<u32>)
    requires
        old(vpa).wf(),
    ensures
        final(vpa).wf(),
        match r {
            Some(addr) => {
                let bit = (addr as int - VIRT_BASE as int) / 4096;
                &&& addr as int % 4096 == 0
                &&& VIRT_BASE as int <= addr as int
                &&& addr as int + count as int * 4096 <= 0x1_0000_0000
                &&& free_run(old(vpa).bits(), bit, count as int)
                &&& forall|j: int| 0 <= j < bit ==> !free_run(old(vpa).bits(), j, count as int)
                &&& final(vpa).bits() == spec_allocated(old(vpa).bits(), bit, count as int)
            },
            None => {
                &&& forall|j: int| !free_run(old(vpa).bits(), j, count as int)
                &&& *final(vpa) == *old(vpa)
            },
        },
{
    vpa.allocate(count)
}

/// Releases `count` virtual pages at `addr`; see [`VirtPageAllocator::free`].
pub fn free(vpa: &mut VirtPageAllocator, addr: u32, count: usize) -> (r: Result<(), Fault>)
    requires
        old(vpa).wf(),
    ensures
        final(vpa).wf(),
        ({
            let in_range = VIRT_BASE as int <= addr as int && addr as int + count as int * 4096
                <= 0x1_0000_0000;
            let aligned = addr as int % 4096 == 0;
            let bit = (addr as int - VIRT_BASE as int) / 4096;
            &&& (r == Err::<(), Fault>(Fault::FreeOutOfRange) <==> !in_range)
            &&& (r == Err::<(), Fault>(Fault::FreeMisaligned) <==> in_range && !aligned)
            &&& (r == Err::<(), Fault>(Fault::DoubleFree) <==> in_range && aligned && !all_set(
                old(vpa).bits(),
                bit,
                count as int,
            ))
            &&& (r is Ok <==> in_range && aligned && all_set(old(vpa).bits(), bit, count as int))
            &&& (r is Ok ==> final(vpa).bits() == spec_freed(old(vpa).bits(), bit, count as int))
            &&& (r is Err ==> *final(vpa) == *old(vpa))
        }),
{
    vpa.free(addr, count)
}

} // verus!
