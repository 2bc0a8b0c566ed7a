//! The bump heap.
//!
//! Built once during boot: 256 physical pages from the physical memory
//! manager, 256 virtual pages from the virtual page allocator, mapped 1:1 in
//! order through the paging core. Allocation only advances a cursor — each
//! address handed out starts past every earlier allocation — and nothing is
//! ever reclaimed: `dealloc` is a deliberate no-op, and exhaustion is
//! reported to the caller, who treats it as fatal.

use vstd::prelude::*;

use crate::align::{is_pow2, lemma_align_up, lemma_pow2_pos, spec_align_up};
use crate::bitmap::{
    all_set, count_free, free_run, lemma_count_free_allocated, lemma_free_bit_exists,
    spec_allocated,
};
use crate::fault::Fault;
use crate::pmm::PhysicalMemoryAllocator;
use crate::virt_page_alloc::{VirtPageAllocator, VIRT_BASE};
use crate::vmm::{
    lemma_vpage_in_slots, lemma_zero_word_absent, spec_new_pte, spec_pde_index, spec_pde_to_u32,
    spec_table_pde, spec_vpage, Vmm,
};

verus! {

/// Number of 4 KiB pages the heap is built from.
pub const HEAP_PAGES: usize = 256;

/// The forward-only allocator over the heap's mapped virtual range.
pub struct Heap {
    mem_block: (u32, u32),
    curr_offset: u32,
}

/// The heap's pages are mapped 1:1: virtual page `base / 4096 + i` maps the
/// physical page at `pb + i * 4096`, writable, kernel-only, for every page
/// of the heap.
pub open spec fn heap_pages_mapped(vmm: Vmm, base: int, pb: int) -> bool {
    forall|i: int|
        0 <= i < HEAP_PAGES ==> #[trigger] vmm.mapping_4k(base / 4096 + i) == Some(
            spec_new_pte((pb + i * 4096) as u32, false, true, false, false),
        )
}

/// The relation between a heap, one successful allocation from it, and the
/// heap afterwards: the address is the allocation cursor rounded up to
/// `align`, the handed-out bytes fit the extent, and the cursor moves past
/// them.
pub open spec fn alloc_ok(h: Heap, size: u32, align: u32, r: u32, h2: Heap) -> bool {
    let aligned = spec_align_up(h.base() + h.offset(), align as int);
    &&& is_pow2(align as nat)
    &&& h2.base() == h.base()
    &&& h2.size() == h.size()
    &&& r as int == aligned
    &&& aligned + size <= h.base() + h.size()
    &&& h2.offset() == aligned - h.base() + size
}

impl Heap {
    /// First virtual address of the heap.
    pub closed spec fn base(&self) -> int {
        self.mem_block.0 as int
    }

    /// The heap's extent in bytes.
    pub closed spec fn size(&self) -> int {
        self.mem_block.1 as int
    }

    /// How many bytes from the base are already spoken for.
    pub closed spec fn offset(&self) -> int {
        self.curr_offset as int
    }

    /// The cursor lies inside the extent, which lies inside the 32-bit
    /// space.
    pub closed spec fn wf(&self) -> bool {
        &&& self.curr_offset <= self.mem_block.1
        &&& self.mem_block.0 as int + self.mem_block.1 as int <= 0x1_0000_0000
    }

    /// Builds the heap: takes [`HEAP_PAGES`] physical pages and as many
    /// virtual pages, maps them 1:1 in order, and starts the cursor at the
    /// base. Failure of either allocation is reported as the corresponding
    /// exhaustion fault; a mapping fault is passed through. On a clean boot
    /// — a free physical run with two pages to spare for page tables, a free
    /// virtual run, and an empty page directory — success is owed.
    pub fn new(pmm: &mut PhysicalMemoryAllocator, vpa: &mut VirtPageAllocator, vmm: &mut Vmm) -> (r:
        Result<Heap, Fault>)
        requires
            old(pmm).wf(),
            old(vpa).wf(),
            old(vmm).wf(),
        ensures
            final(pmm).wf(),
            final(vpa).wf(),
            final(vmm).wf(),
            final(pmm).first_page() == old(pmm).first_page(),
            final(pmm).page_count() == old(pmm).page_count(),
            (forall|j: int| !free_run(old(pmm).bits(), j, HEAP_PAGES as int)) ==> r == Err::<
                Heap,
                Fault,
            >(Fault::OutOfPhysicalMemory) && *final(pmm) == *old(pmm) && *final(vpa) == *old(vpa)
                && *final(vmm) == *old(vmm),
            ((exists|j: int| free_run(old(pmm).bits(), j, HEAP_PAGES as int)) && (forall|j: int|
                !free_run(old(vpa).bits(), j, HEAP_PAGES as int))) ==> r == Err::<Heap, Fault>(
                Fault::OutOfVirtualMemory,
            ) && *final(vpa) == *old(vpa) && *final(vmm) == *old(vmm),
            ((exists|j: int| free_run(old(pmm).bits(), j, HEAP_PAGES as int)) && count_free(
                old(pmm).bits(),
            ) >= HEAP_PAGES as int + 2 && (exists|j: int|
                free_run(old(vpa).bits(), j, HEAP_PAGES as int)) && (forall|dd: int|
                0 <= dd < 1024 ==> old(vmm).dir_words()[dd] == 0u32)) ==> r is Ok,
            match r {
                Ok(heap) => {
                    &&& heap.wf()
                    &&& heap.offset() == 0
                    &&& heap.size() == HEAP_PAGES as int * 4096
                    &&& heap.base() % 4096 == 0
                    &&& VIRT_BASE as int <= heap.base()
                    &&& heap.base() + heap.size() <= 0x1_0000_0000
                    &&& all_set(
                        final(vpa).bits(),
                        (heap.base() - VIRT_BASE as int) / 4096,
                        HEAP_PAGES as int,
                    )
                    &&& (exists|pbit: int|
                        {
                            let pb = old(pmm).first_page() + 4096 * pbit;
                            &&& #[trigger] free_run(old(pmm).bits(), pbit, HEAP_PAGES as int)
                            &&& (forall|j: int|
                                0 <= j < pbit ==> !free_run(
                                    old(pmm).bits(),
                                    j,
                                    HEAP_PAGES as int,
                                ))
                            &&& pb % 4096 == 0
                            &&& pb + HEAP_PAGES as int * 4096 <= 0x1_0000_0000
                            &&& heap_pages_mapped(*final(vmm), heap.base(), pb)
                            &&& all_set(final(pmm).bits(), pbit, HEAP_PAGES as int)
                        })
                    &&& count_free(old(pmm).bits()) - (HEAP_PAGES as int + 2) <= count_free(
                        final(pmm).bits(),
                    )
                    &&& count_free(final(pmm).bits()) <= count_free(old(pmm).bits())
                        - HEAP_PAGES as int
                },
                Err(_) => true,
            },
    {
        let phys = match pmm.allocate(HEAP_PAGES) {
            Some(p) => p,
            None => {
                return Err(Fault::OutOfPhysicalMemory);
            },
        };
        let virt = match vpa.allocate(HEAP_PAGES) {
            Some(v) => v,
            None => {
                return Err(Fault::OutOfVirtualMemory);
            },
        };
        let ghost pmm_bit = (phys as int - old(pmm).first_page()) / 4096;
        let ghost vpa_bit = (virt as int - VIRT_BASE as int) / 4096;
        let ghost vp0 = virt as int / 4096;
        let ghost cf0 = count_free(old(pmm).bits()) as int;
        proof {
            old(pmm).lemma_bits_len();
            lemma_count_free_allocated(
                old(pmm).bits(),
                pmm_bit,
                HEAP_PAGES as int,
            );
            assert(all_set(
                vpa.bits(),
                (virt as int - VIRT_BASE as int) / 4096,
                HEAP_PAGES as int,
            ));
        }
        let ghost vpa_after = *vpa;
        proof {
            vstd::arithmetic::div_mod::lemma_fundamental_div_mod_converse(
                virt as int,
                4096,
                vp0,
                0,
            );
        }
        // The heap's 256 virtual pages span one or two directory slots; a
        // page table may have to be taken for each.
        let ghost d0 = vp0 / 1024;
        let ghost d1 = (vp0 + HEAP_PAGES - 1) / 1024;
        let ghost pre0 = old(vmm).pde_at(d0).present;
        let ghost pre1 = old(vmm).pde_at(d1).present;
        let ghost clean = cf0 >= HEAP_PAGES as int + 2 && (forall|dd: int|
            0 <= dd < 1024 ==> old(vmm).dir_words()[dd] == 0u32);
        proof {
            old(vmm).lemma_words_len();
            vstd::arithmetic::div_mod::lemma_fundamental_div_mod(vp0, 1024);
            vstd::arithmetic::div_mod::lemma_mod_bound(vp0, 1024);
            vstd::arithmetic::div_mod::lemma_fundamental_div_mod(vp0 + HEAP_PAGES - 1, 1024);
            vstd::arithmetic::div_mod::lemma_mod_bound(vp0 + HEAP_PAGES - 1, 1024);
            assert(0 <= d0 <= d1 <= d0 + 1 && d1 < 1024);
            if clean {
                lemma_zero_word_absent();
                assert(old(vmm).dir_words()[d0] == 0u32 && old(vmm).dir_words()[d1] == 0u32);
                assert(!pre0 && !pre1);
                assert forall|j: int|
                    0 <= j < HEAP_PAGES implies #[trigger] old(vmm).mapping_4k(vp0 + j)
                    is None by {
                    lemma_vpage_in_slots(vp0, j, HEAP_PAGES as int);
                    assert(old(vmm).dir_words()[(vp0 + j) / 1024] == 0u32);
                }
                assert forall|d2: int| 0 <= d2 < 1024 implies old(vmm).large_at(d2) is None by {
                    assert(old(vmm).dir_words()[d2] == 0u32);
                }
            }
        }
        let mut i: usize = 0;
        while i < HEAP_PAGES
            invariant
                pmm.wf(),
                vmm.wf(),
                i <= HEAP_PAGES,
                phys as int % 4096 == 0,
                phys as int == old(pmm).first_page() + 4096 * pmm_bit,
                phys as int + HEAP_PAGES as int * 4096 <= 0x1_0000_0000,
                virt as int % 4096 == 0,
                VIRT_BASE as int <= virt as int,
                virt as int + HEAP_PAGES as int * 4096 <= 0x1_0000_0000,
                vp0 == virt as int / 4096,
                d0 == vp0 / 1024,
                d1 == (vp0 + HEAP_PAGES - 1) / 1024,
                0 <= d0 <= d1 <= d0 + 1,
                d1 < 1024,
                pmm.first_page() == old(pmm).first_page(),
                pmm.page_count() == old(pmm).page_count(),
                pmm.bits().len() == old(pmm).bits().len(),
                *vpa == vpa_after,
                vpa.wf(),
                cf0 == count_free(old(pmm).bits()) as int,
                free_run(old(pmm).bits(), pmm_bit, HEAP_PAGES as int),
                free_run(old(vpa).bits(), vpa_bit, HEAP_PAGES as int),
                all_set(vpa.bits(), vpa_bit, HEAP_PAGES as int),
                all_set(pmm.bits(), pmm_bit, HEAP_PAGES as int),
                pre0 ==> vmm.pde_at(d0).present,
                pre1 ==> vmm.pde_at(d1).present,
                count_free(pmm.bits()) as int == cf0 - HEAP_PAGES as int - (if vmm.pde_at(
                    d0,
                ).present && !pre0 {
                    1int
                } else {
                    0int
                }) - (if d1 != d0 && vmm.pde_at(d1).present && !pre1 {
                    1int
                } else {
                    0int
                }),
                clean == (cf0 >= HEAP_PAGES as int + 2 && (forall|dd: int|
                    0 <= dd < 1024 ==> old(vmm).dir_words()[dd] == 0u32)),
                clean ==> !pre0 && !pre1 && cf0 >= HEAP_PAGES as int + 2,
                clean ==> (forall|j: int|
                    i <= j < HEAP_PAGES ==> #[trigger] vmm.mapping_4k(vp0 + j) is None),
                clean ==> (forall|d2: int| 0 <= d2 < 1024 ==> vmm.large_at(d2) is None),
                forall|j: int|
                    0 <= j < i ==> #[trigger] vmm.mapping_4k(vp0 + j) == Some(
                        spec_new_pte((phys as int + j * 4096) as u32, false, true, false, false),
                    ),
            decreases HEAP_PAGES - i,
        {
            let p = phys + (i as u32) * 4096;
            let v = virt + (i as u32) * 4096;
            let ghost d = spec_pde_index(v);
            proof {
                vstd::arithmetic::div_mod::lemma_fundamental_div_mod_converse(
                    v as int,
                    4096,
                    vp0 + i,
                    0,
                );
                assert(spec_vpage(v) == vp0 + i);
                lemma_vpage_in_slots(vp0, i as int, HEAP_PAGES as int);
                assert(d == (vp0 + i) / 1024);
                assert(d == d0 || d == d1);
                assert(p as int % 4096 == 0) by {
                    vstd::arithmetic::div_mod::lemma_fundamental_div_mod(phys as int, 4096);
                    vstd::arithmetic::div_mod::lemma_fundamental_div_mod_converse(
                        p as int,
                        4096,
                        phys as int / 4096 + i,
                        0,
                    );
                };
                if clean && !vmm.pde_at(d).present {
                    // A page table is needed and the physical manager can
                    // still provide one.
                    assert(count_free(pmm.bits()) as int >= 1);
                    lemma_free_bit_exists(pmm.bits());
                }
            }
            let ghost vmm_pre = *vmm;
            let ghost pmm_pre = *pmm;
            match vmm.map(pmm, p, v, false, true, false, false) {
                Err(f) => {
                    proof {
                        if clean {
                            assert(vmm_pre.mapping_4k(vp0 + i) is None);
                            assert(vmm_pre.large_at(d) is None);
                            assert(!(vmm_pre.pde_at(d).present && vmm_pre.pde_at(d).page_size));
                            assert(false);
                        }
                    }
                    return Err(f);
                },
                Ok(()) => {},
            }
            proof {
                let installed = spec_new_pte(
                    (phys as int + i * 4096) as u32,
                    false,
                    true,
                    false,
                    false,
                );
                assert(vmm.mapping_4k(vp0 + i) == Some(installed));
                assert forall|j: int|
                    0 <= j < i + 1 implies #[trigger] vmm.mapping_4k(vp0 + j) == Some(
                    spec_new_pte((phys as int + j * 4096) as u32, false, true, false, false),
                ) by {
                    if j < i {
                        assert(vp0 + j != vp0 + i);
                    }
                }
                vmm_pre.lemma_words_len();
                vmm.lemma_words_len();
                if !vmm_pre.pde_at(d).present {
                    // One table page left the physical manager.
                    let tb = choose|tb: int|
                        {
                            let table_addr = (pmm_pre.first_page() + 4096 * tb) as u32;
                            &&& #[trigger] free_run(pmm_pre.bits(), tb, 1)
                            &&& (forall|j: int| 0 <= j < tb ==> !free_run(pmm_pre.bits(), j, 1))
                            &&& pmm.bits() == spec_allocated(pmm_pre.bits(), tb, 1)
                            &&& vmm.pde_at(d) == spec_table_pde(
                                table_addr,
                                false,
                                true,
                                false,
                                false,
                            )
                            &&& vmm.dir_words() == vmm_pre.dir_words().update(
                                d,
                                spec_pde_to_u32(
                                    spec_table_pde(table_addr, false, true, false,
                                    false),
                                ),
                            )
                        };
                    assert(pmm.bits() == spec_allocated(pmm_pre.bits(), tb, 1));
                    assert forall|k: int|
                        pmm_bit <= k < pmm_bit + HEAP_PAGES implies pmm.bits()[k] by {
                        assert(pmm_pre.bits()[k]);
                    }
                    if d != d0 {
                        assert(vmm.dir_words()[d0] == vmm_pre.dir_words()[d0]);
                    }
                    if d != d1 {
                        assert(vmm.dir_words()[d1] == vmm_pre.dir_words()[d1]);
                    }
                } else {
                    assert(*pmm == pmm_pre);
                    assert(vmm.dir_words() == vmm_pre.dir_words());
                }
                if clean {
                    assert forall|j: int|
                        i + 1 <= j < HEAP_PAGES implies #[trigger] vmm.mapping_4k(vp0 + j)
                        is None by {
                        assert(vp0 + j != vp0 + i);
                        assert(vmm.mapping_4k(vp0 + j) == vmm_pre.mapping_4k(vp0 + j));
                    }
                }
            }
            i = i + 1;
        }
        let heap = Heap { mem_block: (virt, 4096 * HEAP_PAGES as u32), curr_offset: 0 };
        proof {
            let pb = old(pmm).first_page() + 4096 * pmm_bit;
            assert(pb == phys as int);
            assert(heap_pages_mapped(*vmm, heap.base(), pb));
            assert(free_run(old(pmm).bits(), pmm_bit, HEAP_PAGES as int));
            assert(all_set(pmm.bits(), pmm_bit, HEAP_PAGES as int));
        }
        Ok(heap)
    }

    /// Hands out `size` bytes at the next `align`-aligned address past the
    /// cursor and advances the cursor beyond them; when the aligned end
    /// would run past the heap's extent (or the 32-bit space), the heap is
    /// exhausted and nothing changes.
    pub fn allocate(&mut self, size: u32, align: u32) -> (r: Result<u32, Fault>)
        requires
            old(self).wf(),
            is_pow2(align as nat),
        ensures
            final(self).wf(),
            final(self).base() == old(self).base(),
            final(self).size() == old(self).size(),
            ({
                let aligned = spec_align_up(old(self).base() + old(self).offset(), align as int);
                &&& (r is Ok <==> aligned + size <= old(self).base() + old(self).size() && aligned
                    < 0x1_0000_0000)
                &&& (r is Err ==> r == Err::<u32, Fault>(Fault::HeapExhausted) && *final(self)
                    == *old(self))
                &&& (r is Ok ==> alloc_ok(*old(self), size, align, r->Ok_0, *final(self))
                    && r->Ok_0 as int % align as int == 0 && old(self).base() + old(self).offset()
                    <= r->Ok_0 as int)
            }),
    {
        proof {
            lemma_pow2_pos(align as nat);
            lemma_align_up(
                self.mem_block.0 as int + self.curr_offset as int,
                align as int,
            );
        }
        let base64 = self.mem_block.0 as u64;
        let cur64 = base64 + self.curr_offset as u64;
        let al = align as u64;
        let aligned = ((cur64 + (al - 1)) / al) * al;
        if aligned + size as u64 > base64 + self.mem_block.1 as u64 || aligned >= 0x1_0000_0000u64 {
            return Err(Fault::HeapExhausted);
        }
        self.curr_offset = ((aligned - base64) + size as u64) as u32;
        Ok(aligned as u32)
    }

    /// Deliberately does nothing: this allocator never reclaims memory.
    pub fn dealloc(&mut self, _addr: u32, _size: u32)
        ensures
            *final(self) == *old(self),
    {
    }
}

/// Over two consecutive successful allocations the second address starts
/// past the first allocation's last byte; with a non-empty first allocation
/// the addresses are strictly increasing.
pub proof fn lemma_heap_monotonic(
    h0: Heap,
    h1: Heap,
    h2: Heap,
    a1: u32,
    s1: u32,
    al1: u32,
    a2: u32,
    s2: u32,
    al2: u32,
)
    requires
        h0.wf(),
        alloc_ok(h0, s1, al1, a1, h1),
        alloc_ok(h1, s2, al2, a2, h2),
    ensures
        a2 as int >= a1 as int + s1 as int,
        a1 as int % al1 as int == 0,
        a2 as int % al2 as int == 0,
        s1 >= 1 ==> a2 > a1,
{
    lemma_pow2_pos(al1 as nat);
    lemma_pow2_pos(al2 as nat);
    lemma_align_up(h0.base() + h0.offset(), al1 as int);
    lemma_align_up(h1.base() + h1.offset(), al2 as int);
}

/// Builds the heap out of the three managers, with [`Heap::new`]'s
/// contract: the same exhaustion reports, the same owed success on a clean
/// boot, and the same description of the built heap.
pub fn init(pmm: &mut PhysicalMemoryAllocator, vpa: &mut VirtPageAllocator, vmm: &mut Vmm) -> (r:
    Result<Heap, Fault>)
    requires
        old(pmm).wf(),
        old(vpa).wf(),
        old(vmm).wf(),
    ensures
        final(pmm).wf(),
        final(vpa).wf(),
        final(vmm).wf(),
        final(pmm).first_page() == old(pmm).first_page(),
        final(pmm).page_count() == old(pmm).page_count(),
        (forall|j: int| !free_run(old(pmm).bits(), j, HEAP_PAGES as int)) ==> r == Err::<
            Heap,
            Fault,
        >(Fault::OutOfPhysicalMemory) && *final(pmm) == *old(pmm) && *final(vpa) == *old(vpa)
            && *final(vmm) == *old(vmm),
        ((exists|j: int| free_run(old(pmm).bits(), j, HEAP_PAGES as int)) && (forall|j: int|
            !free_run(old(vpa).bits(), j, HEAP_PAGES as int))) ==> r == Err::<Heap, Fault>(
            Fault::OutOfVirtualMemory,
        ) && *final(vpa) == *old(vpa) && *final(vmm) == *old(vmm),
        ((exists|j: int| free_run(old(pmm).bits(), j, HEAP_PAGES as int)) && count_free(
            old(pmm).bits(),
        ) >= HEAP_PAGES as int + 2 && (exists|j: int|
            free_run(old(vpa).bits(), j, HEAP_PAGES as int)) && (forall|dd: int|
            0 <= dd < 1024 ==> old(vmm).dir_words()[dd] == 0u32)) ==> r is Ok,
        match r {
            Ok(heap) => {
                &&& heap.wf()
                &&& heap.offset() == 0
                &&& heap.size() == HEAP_PAGES as int * 4096
                &&& heap.base() % 4096 == 0
                &&& VIRT_BASE as int <= heap.base()
                &&& heap.base() + heap.size() <= 0x1_0000_0000
                &&& all_set(
                    final(vpa).bits(),
                    (heap.base() - VIRT_BASE as int) / 4096,
                    HEAP_PAGES as int,
                )
                &&& (exists|pbit: int|
                    {
                        let pb = old(pmm).first_page() + 4096 * pbit;
                        &&& #[trigger] free_run(old(pmm).bits(), pbit, HEAP_PAGES as int)
                        &&& (forall|j: int|
                            0 <= j < pbit ==> !free_run(old(pmm).bits(), j, HEAP_PAGES as int))
                        &&& pb % 4096 == 0
                        &&& pb + HEAP_PAGES as int * 4096 <= 0x1_0000_0000
                        &&& heap_pages_mapped(*final(vmm), heap.base(), pb)
                        &&& all_set(final(pmm).bits(), pbit, HEAP_PAGES as int)
                    })
                &&& count_free(old(pmm).bits()) - (HEAP_PAGES as int + 2) <= count_free(
                    final(pmm).bits(),
                )
                &&& count_free(final(pmm).bits()) <= count_free(old(pmm).bits())
                    - HEAP_PAGES as int
            },
            Err(_) => true,
        },
{
    Heap::new(pmm, vpa, vmm)
}

} // verus!
