//! The physical memory manager.
//!
//! Initialization finds the memory-map tag, walks its `Available` records
//! (clipped to the 32-bit physical space), clips each around the kernel
//! image into zero, one or two sub-ranges, rounds every sub-range inward to
//! whole 4 KiB pages, and manages the single sub-range with the most pages
//! (the alternative of managing every sub-range is not taken: this manager
//! keeps only the largest). Allocation is a first-fit scan over one bit per
//! page; freeing validates alignment, range and allocation state and reports
//! the exact fault otherwise.

use vstd::arithmetic::div_mod::{lemma_fundamental_div_mod, lemma_fundamental_div_mod_converse};
use vstd::prelude::*;

use crate::align::{lemma_align_down, lemma_align_up, spec_align_down, spec_align_up};
use crate::bitmap::{all_set, count_free, free_run, spec_allocated, spec_freed, Bitmap};
use crate::fault::Fault;
use crate::multiboot2::{first_mmap, MultibootTag, TagIterator, _MultibootMmapPart};

verus! {

/// Initialization cannot proceed: the boot information has no memory map.
#[derive(Clone, Copy, Debug, PartialEq, Eq, Structural)]
pub enum PhysicalMemoryAllocatorNewError {
    CouldNotFindMmap,
}

/// The usable physical range a raw memory-map record denotes: `None` unless
/// the record is `Available` and starts inside the 32-bit space; a range
/// running past it is clipped to end at the top address.
pub open spec fn spec_region_of(e: _MultibootMmapPart) -> Option<(u32, u32)> {
    if e.type_ != 1 {
        None
    } else if e.addr > 0xFFFF_FFFF {
        None
    } else if e.addr + e.len > 0xFFFF_FFFF {
        Some((e.addr as u32, (0xFFFF_FFFF - e.addr) as u32))
    } else {
        Some((e.addr as u32, e.len as u32))
    }
}

/// The usable ranges denoted by the records from index `i` on.
pub open spec fn regions_from(parts: Seq<_MultibootMmapPart>, i: int) -> Seq<(u32, u32)>
    decreases parts.len() - i,
{
    if i < 0 || i >= parts.len() {
        Seq::empty()
    } else {
        match spec_region_of(parts[i]) {
            Some(r) => seq![r] + regions_from(parts, i + 1),
            None => regions_from(parts, i + 1),
        }
    }
}

/// A range `[start, start + size)` clipped around the kernel image
/// `[ks, ke)`: the whole range when the two are disjoint, else the parts
/// before and after the kernel that are not empty.
pub open spec fn spec_chunks(start: int, size: int, ks: int, ke: int) -> Seq<(int, int)> {
    let end = start + size;
    if ke <= start || end <= ks {
        seq![(start, size)]
    } else {
        let pre: Seq<(int, int)> = if start < ks {
            seq![(start, ks - start)]
        } else {
            Seq::empty()
        };
        let post: Seq<(int, int)> = if ke < end {
            seq![(ke, end - ke)]
        } else {
            Seq::empty()
        };
        pre + post
    }
}

/// The whole pages inside a byte range: the first page boundary at or above
/// its start, and the count of full pages up to the last boundary at or
/// below its end. `None` when no whole page fits.
pub open spec fn spec_page_block(start: int, size: int) -> Option<(int, int)> {
    let first = spec_align_up(start, 4096);
    if first > start + size {
        None
    } else {
        let last = spec_align_down(start + size, 4096);
        if first == last {
            None
        } else {
            Some((first, (last - first) / 4096))
        }
    }
}

/// Keeps the larger of the block found so far and the one a chunk yields;
/// on a tie the earlier block stands.
pub open spec fn spec_pick(acc: (int, int), c: (int, int)) -> (int, int) {
    match spec_page_block(c.0, c.1) {
        Some(b) => if b.1 > acc.1 {
            b
        } else {
            acc
        },
        None => acc,
    }
}

/// Folds one usable range into the best block found so far, after clipping
/// it around the kernel image.
pub open spec fn spec_step(acc: (int, int), region: (int, int), ks: int, ke: int) -> (int, int) {
    let cs = spec_chunks(region.0, region.1, ks, ke);
    if cs.len() == 0 {
        acc
    } else if cs.len() == 1 {
        spec_pick(acc, cs[0])
    } else {
        spec_pick(spec_pick(acc, cs[0]), cs[1])
    }
}

/// The best block over a sequence of usable ranges.
pub open spec fn spec_run_best(rs: Seq<(u32, u32)>, ks: int, ke: int, acc: (int, int)) -> (
    int,
    int,
)
    decreases rs.len(),
{
    if rs.len() == 0 {
        acc
    } else {
        spec_run_best(
            rs.drop_first(),
            ks,
            ke,
            spec_step(acc, (rs[0].0 as int, rs[0].1 as int), ks, ke),
        )
    }
}

/// The managed block — first page address and page count — that a memory
/// map and a kernel image determine: the first block with the largest page
/// count, `(0, 0)` when no whole page is usable.
pub open spec fn spec_chosen_block(parts: Seq<_MultibootMmapPart>, ks: int, ke: int) -> (int, int) {
    spec_run_best(regions_from(parts, 0), ks, ke, (0, 0))
}

/// Walks the raw memory-map records and yields each usable range: the
/// `Available` records, clipped to the 32-bit space.
pub struct FreeRegionIterator {
    parts: Vec<_MultibootMmapPart>,
    idx: usize,
}

impl FreeRegionIterator {
    /// The records walked.
    pub closed spec fn parts_view(&self) -> Seq<_MultibootMmapPart> {
        self.parts@
    }

    /// The next record to look at.
    pub closed spec fn at(&self) -> int {
        self.idx as int
    }

    /// The cursor is within the records.
    pub closed spec fn wf(&self) -> bool {
        self.idx <= self.parts@.len()
    }

    /// A walker over the given records, from the first.
    pub fn new(parts: Vec<_MultibootMmapPart>) -> (r: FreeRegionIterator)
        ensures
            r.wf(),
            r.parts_view() == parts@,
            r.at() == 0,
    {
        FreeRegionIterator { parts, idx: 0 }
    }

    /// The next usable range, or `None` when no record remains.
    pub fn next(&mut self) -> (r: Option<(u32, u32)>)
        requires
            old(self).wf(),
        ensures
            final(self).wf(),
            final(self).parts_view() == old(self).parts_view(),
            match r {
                Some(reg) => {
                    &&& regions_from(old(self).parts_view(), old(self).at()) == seq![reg]
                        + regions_from(final(self).parts_view(), final(self).at())
                    &&& reg.0 as int + reg.1 as int <= 0xFFFF_FFFF
                    &&& old(self).at() < final(self).at() <= final(self).parts_view().len()
                },
                None => {
                    &&& regions_from(old(self).parts_view(), old(self).at()).len() == 0
                    &&& final(self).at() == final(self).parts_view().len()
                },
            },
    {
        let ghost parts = old(self).parts_view();
        let ghost i0 = old(self).at();
        while self.idx < self.parts.len()
            invariant
                self.parts@ == parts,
                parts == old(self).parts_view(),
                i0 == old(self).at(),
                0 <= i0,
                i0 <= self.idx as int,
                self.idx <= self.parts@.len(),
                regions_from(parts, i0) == regions_from(parts, self.idx as int),
            decreases self.parts@.len() - self.idx,
        {
            let part = self.parts[self.idx];
            let ghost i = self.idx as int;
            if part.type_ != 1 {
                proof {
                    assert(regions_from(parts, i) == regions_from(parts, i + 1));
                }
                self.idx = self.idx + 1;
                continue ;
            }
            if part.addr > 0xFFFF_FFFF {
                proof {
                    assert(regions_from(parts, i) == regions_from(parts, i + 1));
                }
                self.idx = self.idx + 1;
                continue ;
            }
            let start = part.addr as u32;
            let size: u32 = if part.len > 0xFFFF_FFFFu64 - part.addr {
                0xFFFF_FFFFu32 - start
            } else {
                part.len as u32
            };
            proof {
                assert(spec_region_of(part) == Some::<(u32, u32)>((start, size)));
                assert(regions_from(parts, i) == seq![(start, size)] + regions_from(parts, i + 1));
            }
            self.idx = self.idx + 1;
            return Some((start, size));
        }
        None
    }
}

/// The contiguous physical range the manager owns.
struct PhysicalMemoryAllocatorBlock {
    first_page: u32,
    last_page: u32,
    size: u32,
    page_count: usize,
}

/// Page-granular allocator over the managed physical region.
pub struct PhysicalMemoryAllocator {
    block: PhysicalMemoryAllocatorBlock,
    bitmap: Bitmap,
}

/// Finds the usable-page block with the most pages in one chunk and keeps it
/// when it beats the best block found so far.
fn process_chunk(start: u32, size: u32, biggest: (u32, u32)) -> (r: Option<(u32, u32)>)
    requires
        start as int + size as int <= 0xFFFF_FFFF,
    ensures
        ({
            let p = spec_pick((biggest.0 as int, biggest.1 as int), (start as int, size as int));
            match r {
                Some(b) => {
                    &&& p == (b.0 as int, b.1 as int)
                    &&& b.1 > biggest.1
                    &&& b.0 as int % 4096 == 0
                    &&& b.0 as int + b.1 as int * 4096 <= 0xFFFF_FFFF
                },
                None => p == (biggest.0 as int, biggest.1 as int),
            }
        }),
{
    proof {
        lemma_align_up(start as int, 4096);
        lemma_align_down(start as int + size as int, 4096);
    }
    let first: u64 = (start as u64 + 4095) / 4096 * 4096;
    let end: u64 = start as u64 + size as u64;
    if first > end {
        return None;
    }
    let last: u64 = end / 4096 * 4096;
    if first == last {
        return None;
    }
    proof {
        lemma_fundamental_div_mod(first as int, 4096);
        lemma_fundamental_div_mod(last as int, 4096);
        let qf = first as int / 4096;
        let ql = last as int / 4096;
        assert(last as int - first as int == 4096 * (ql - qf));
        lemma_fundamental_div_mod_converse(last as int - first as int, 4096, ql - qf, 0);
    }
    let count: u64 = (last - first) / 4096;
    if count > biggest.1 as u64 {
        Some((first as u32, count as u32))
    } else {
        None
    }
}

impl PhysicalMemoryAllocator {
    /// First address of the managed region.
    pub closed spec fn first_page(&self) -> int {
        self.block.first_page as int
    }

    /// Number of managed pages.
    pub closed spec fn page_count(&self) -> int {
        self.block.page_count as int
    }

    /// One bit per managed page; set means allocated.
    pub closed spec fn bits(&self) -> Seq<bool> {
        self.bitmap@
    }

    /// The managed region is page-aligned, lies inside the 32-bit space, and
    /// the bitmap covers exactly its pages.
    pub closed spec fn wf(&self) -> bool {
        &&& self.bitmap.wf()
        &&& self.bitmap@.len() == self.block.page_count
        &&& self.block.first_page as int % 4096 == 0
        &&& self.block.first_page as int + self.block.page_count as int * 4096
            == self.block.last_page as int
        &&& self.block.size as int == self.block.page_count as int * 4096
    }

    /// Builds the manager from the boot information: finds the memory-map
    /// tag (an error if none exists), selects the largest usable block not
    /// overlapping the kernel image `[kernel_start, kernel_end)`, and starts
    /// with every page free.
    pub fn new(tag_iter: &mut TagIterator, kernel_start: u32, kernel_end: u32) -> (r: Result<
        PhysicalMemoryAllocator,
        PhysicalMemoryAllocatorNewError,
    >)
        requires
            old(tag_iter).wf(),
            kernel_start <= kernel_end,
        ensures
            final(tag_iter).wf(),
            final(tag_iter).blob_view() == old(tag_iter).blob_view(),
            final(tag_iter).full_tag_seq() == old(tag_iter).full_tag_seq(),
            match r {
                Ok(pma) => {
                    &&& first_mmap(old(tag_iter).tag_seq()) is Some
                    &&& pma.wf()
                    &&& ({
                        let parts = first_mmap(old(tag_iter).tag_seq())->Some_0;
                        let b = spec_chosen_block(parts, kernel_start as int, kernel_end as int);
                        pma.first_page() == b.0 && pma.page_count() == b.1
                    })
                    &&& pma.bits().len() == pma.page_count()
                    &&& forall|i: int| 0 <= i < pma.bits().len() ==> !pma.bits()[i]
                },
                Err(e) => {
                    &&& e == PhysicalMemoryAllocatorNewError::CouldNotFindMmap
                    &&& first_mmap(old(tag_iter).tag_seq()) is None
                },
            },
    {
        let parts = match find_mmap(tag_iter) {
            Some(v) => v,
            None => {
                return Err(PhysicalMemoryAllocatorNewError::CouldNotFindMmap);
            },
        };
        let ghost parts_seq = parts@;
        let ghost ks = kernel_start as int;
        let ghost ke = kernel_end as int;
        let mut region_iter = FreeRegionIterator::new(parts);
        let mut best_first: u32 = 0;
        let mut best_count: u32 = 0;
        loop
            invariant
                region_iter.wf(),
                region_iter.parts_view() == parts_seq,
                kernel_start <= kernel_end,
                ks == kernel_start as int,
                ke == kernel_end as int,
                best_first as int % 4096 == 0,
                best_first as int + best_count as int * 4096 <= 0xFFFF_FFFF,
                spec_run_best(
                    regions_from(parts_seq, region_iter.at()),
                    ks,
                    ke,
                    (best_first as int, best_count as int),
                ) == spec_chosen_block(parts_seq, ks, ke),
            ensures
                best_first as int % 4096 == 0,
                best_first as int + best_count as int * 4096 <= 0xFFFF_FFFF,
                spec_chosen_block(parts_seq, ks, ke) == (best_first as int, best_count as int),
            decreases parts_seq.len() - region_iter.at(),
        {
            let ghost i_before = region_iter.at();
            let reg = match region_iter.next() {
                Some(reg) => reg,
                None => {
                    proof {
                        assert(regions_from(parts_seq, i_before).len() == 0);
                        assert(spec_run_best(
                            regions_from(parts_seq, i_before),
                            ks,
                            ke,
                            (best_first as int, best_count as int),
                        ) == (best_first as int, best_count as int));
                    }
                    break ;
                },
            };
            let (start, size) = reg;
            let ghost acc0 = (best_first as int, best_count as int);
            let ghost rs_before = regions_from(parts_seq, i_before);
            proof {
                assert(rs_before.len() > 0);
                assert(rs_before[0] == reg);
                assert(rs_before.drop_first() =~= regions_from(parts_seq, region_iter.at()));
            }
            let end: u32 = start + size;
            if kernel_end <= start || end <= kernel_start {
                if let Some(b) = process_chunk(start, size, (best_first, best_count)) {
                    best_first = b.0;
                    best_count = b.1;
                }
                proof {
                    let cs = spec_chunks(start as int, size as int, ks, ke);
                    assert(cs.len() == 1 && cs[0] == (start as int, size as int));
                    assert(spec_step(acc0, (start as int, size as int), ks, ke) == (
                        best_first as int,
                        best_count as int,
                    ));
                }
            } else {
                let ghost cs = spec_chunks(start as int, size as int, ks, ke);
                if start < kernel_start {
                    if let Some(b) = process_chunk(
                        start,
                        kernel_start - start,
                        (best_first, best_count),
                    ) {
                        best_first = b.0;
                        best_count = b.1;
                    }
                }
                let ghost acc1 = (best_first as int, best_count as int);
                proof {
                    if start < kernel_start {
                        assert(acc1 == spec_pick(acc0, (start as int, ks - start as int)));
                    } else {
                        assert(acc1 == acc0);
                    }
                }
                if kernel_end < end {
                    if let Some(b) = process_chunk(
                        kernel_end,
                        end - kernel_end,
                        (best_first, best_count),
                    ) {
                        best_first = b.0;
                        best_count = b.1;
                    }
                }
                proof {
                    let acc2 = (best_first as int, best_count as int);
                    if kernel_end < end {
                        assert(acc2 == spec_pick(acc1, (ke, end as int - ke)));
                    } else {
                        assert(acc2 == acc1);
                    }
                    if start < kernel_start && kernel_end < end {
                        assert(cs.len() == 2 && cs[0] == (start as int, ks - start as int) && cs[1]
                            == (ke, end as int - ke));
                    } else if start < kernel_start {
                        assert(cs =~= seq![(start as int, ks - start as int)]);
                    } else if kernel_end < end {
                        assert(cs =~= seq![(ke, end as int - ke)]);
                    } else {
                        assert(cs.len() == 0);
                    }
                    assert(spec_step(acc0, (start as int, size as int), ks, ke) == acc2);
                }
            }
        }
        let page_count = best_count as usize;
        let size: u32 = best_count * 4096;
        let first_page = best_first;
        let last_page: u32 = first_page + size;
        let bitmap = Bitmap::new(page_count);
        Ok(
            PhysicalMemoryAllocator {
                block: PhysicalMemoryAllocatorBlock { first_page, last_page, size, page_count },
                bitmap,
            },
        )
    }

    /// First-fit allocation of `count` contiguous pages: returns the
    /// page-aligned base of the lowest all-free run, now marked allocated,
    /// or `None` — with nothing changed — when no such run exists.
    pub fn allocate(&mut self, count: usize) -> (r: Option<u32>)
        requires
            old(self).wf(),
        ensures
            final(self).wf(),
            final(self).first_page() == old(self).first_page(),
            final(self).page_count() == old(self).page_count(),
            final(self).bits().len() == old(self).bits().len(),
            match r {
                Some(addr) => {
                    let bit = (addr as int - old(self).first_page()) / 4096;
                    &&& addr as int == old(self).first_page() + 4096 * bit
                    &&& addr as int % 4096 == 0
                    &&& addr as int + count as int * 4096 <= old(self).first_page() + old(
                        self,
                    ).page_count() * 4096
                    &&& free_run(old(self).bits(), bit, count as int)
                    &&& forall|j: int| 0 <= j < bit ==> !free_run(old(self).bits(), j, count as int)
                    &&& final(self).bits() == spec_allocated(old(self).bits(), bit, count as int)
                },
                None => {
                    &&& forall|j: int| !free_run(old(self).bits(), j, count as int)
                    &&& *final(self) == *old(self)
                },
            },
    {
        let bit = match self.bitmap.take_bits(count) {
            Some(bit) => bit,
            None => {
                return None;
            },
        };
        proof {
            assert(bit + count <= self.block.page_count);
            assert(4096 * (bit as int) + 4096 * (count as int) <= 4096 * (
            self.block.page_count as int));
        }
        let addr: u32 = self.block.first_page + (bit as u32) * 4096;
        proof {
            lemma_fundamental_div_mod(self.block.first_page as int, 4096);
            let qf = self.block.first_page as int / 4096;
            lemma_fundamental_div_mod_converse(addr as int, 4096, qf + bit as int, 0);
            lemma_fundamental_div_mod_converse(
                addr as int - self.block.first_page as int,
                4096,
                bit as int,
                0,
            );
        }
        Some(addr)
    }

    /// Frees `count` pages starting at `addr`. The range must be
    /// page-aligned, lie entirely inside the managed region, and be entirely
    /// allocated; otherwise the exact fault is reported and nothing changes.
    pub fn free(&mut self, addr: u32, count: usize) -> (r: Result<(), Fault>)
        requires
            old(self).wf(),
        ensures
            final(self).wf(),
            final(self).first_page() == old(self).first_page(),
            final(self).page_count() == old(self).page_count(),
            final(self).bits().len() == old(self).bits().len(),
            ({
                let first = old(self).first_page();
                let pc = old(self).page_count();
                let in_range = first <= addr as int && addr as int + count as int * 4096 <= first
                    + pc * 4096;
                let aligned = addr as int % 4096 == 0;
                let bit = (addr as int - first) / 4096;
                &&& (r == Err::<(), Fault>(Fault::FreeOutOfRange) <==> !in_range)
                &&& (r == Err::<(), Fault>(Fault::FreeMisaligned) <==> in_range && !aligned)
                &&& (r == Err::<(), Fault>(Fault::DoubleFree) <==> in_range && aligned && !all_set(
                    old(self).bits(),
                    bit,
                    count as int,
                ))
                &&& (r is Ok <==> in_range && aligned && all_set(old(self).bits(), bit, count as int))
                &&& (r is Ok ==> final(self).bits() == spec_freed(old(self).bits(), bit, count as int))
                &&& (r is Err ==> *final(self) == *old(self))
            }),
    {
        let first = self.block.first_page;
        if addr < first || count > self.block.page_count {
            return Err(Fault::FreeOutOfRange);
        }
        if addr as u64 + (count as u64) * 4096 > self.block.last_page as u64 {
            return Err(Fault::FreeOutOfRange);
        }
        if addr % 4096 != 0 {
            return Err(Fault::FreeMisaligned);
        }
        proof {
            lemma_fundamental_div_mod(addr as int, 4096);
            lemma_fundamental_div_mod(first as int, 4096);
            let qa = addr as int / 4096;
            let qf = first as int / 4096;
            assert(addr as int - first as int == 4096 * (qa - qf));
            lemma_fundamental_div_mod_converse(addr as int - first as int, 4096, qa - qf, 0);
        }
        let bit = ((addr - first) / 4096) as usize;
        proof {
            assert(4096 * (bit as int) + 4096 * (count as int) <= 4096 * (
            self.block.page_count as int));
            assert(bit + count <= self.block.page_count);
        }
        proof {
            assert(bit as int == (addr as int - old(self).first_page()) / 4096);
        }
        let r = self.bitmap.free_bits(bit, count);
        proof {
            let b = (addr as int - old(self).first_page()) / 4096;
            assert(all_set(old(self).bits(), b, count as int) == all_set(
                old(self).bits(),
                bit as int,
                count as int,
            ));
            assert((r is Ok) <==> all_set(old(self).bits(), bit as int, count as int));
            assert((r == Err::<(), Fault>(Fault::DoubleFree)) <==> !all_set(
                old(self).bits(),
                bit as int,
                count as int,
            ));
        }
        match r {
            Ok(()) => Ok(()),
            Err(f) => Err(f),
        }
    }

    /// The bitmap holds one bit per managed page, and the managed region is
    /// page-aligned and lies inside the 32-bit space.
    pub proof fn lemma_bits_len(&self)
        requires
            self.wf(),
        ensures
            self.bits().len() == self.page_count(),
            0 <= self.first_page(),
            self.first_page() % 4096 == 0,
            self.first_page() + self.page_count() * 4096 <= 0xFFFF_FFFF,
    {
    }

    /// The number of pages currently free.
    pub fn free_page_count(&self) -> (r: usize)
        requires
            self.wf(),
        ensures
            r == count_free(self.bits()),
    {
        self.bitmap.free_count()
    }
}

/// Consumes tags until the first memory-map tag and hands back its records.
fn find_mmap(tag_iter: &mut TagIterator) -> (r: Option<Vec<_MultibootMmapPart>>)
    requires
        old(tag_iter).wf(),
    ensures
        final(tag_iter).wf(),
        final(tag_iter).blob_view() == old(tag_iter).blob_view(),
        final(tag_iter).full_tag_seq() == old(tag_iter).full_tag_seq(),
        match r {
            Some(v) => first_mmap(old(tag_iter).tag_seq()) == Some(v@),
            None => first_mmap(old(tag_iter).tag_seq()) is None,
        },
{
    loop
        invariant
            tag_iter.wf(),
            tag_iter.blob_view() == old(tag_iter).blob_view(),
            tag_iter.full_tag_seq() == old(tag_iter).full_tag_seq(),
            first_mmap(tag_iter.tag_seq()) == first_mmap(old(tag_iter).tag_seq()),
        decreases tag_iter.tag_seq().len(),
    {
        let ghost tags = tag_iter.tag_seq();
        match tag_iter.next() {
            None => {
                return None;
            },
            Some(MultibootTag::Mmap(v)) => {
                proof {
                    assert(tags[0] == crate::multiboot2::TagView::Mmap(v@));
                }
                return Some(v);
            },
            Some(other) => {
                proof {
                    assert(!(other@ is Mmap));
                    assert(first_mmap(tags) == first_mmap(tags.drop_first()));
                }
            },
        }
    }
}

/// Builds the physical memory manager from the boot information; see
/// [`PhysicalMemoryAllocator::new`].
pub fn init(tag_iter: &mut TagIterator, kernel_start: u32, kernel_end: u32) -> (r: Result<
    PhysicalMemoryAllocator,
    PhysicalMemoryAllocatorNewError,
>)
    requires
        old(tag_iter).wf(),
        kernel_start <= kernel_end,
    ensures
        final(tag_iter).wf(),
        match r {
            Ok(pma) => {
                &&& first_mmap(old(tag_iter).tag_seq()) is Some
                &&& pma.wf()
                &&& ({
                    let parts = first_mmap(old(tag_iter).tag_seq())->Some_0;
                    let b = spec_chosen_block(parts, kernel_start as int, kernel_end as int);
                    pma.first_page() == b.0 && pma.page_count() == b.1
                })
                &&& forall|i: int| 0 <= i < pma.bits().len() ==> !pma.bits()[i]
                &&& pma.bits().len() == pma.page_count()
            },
            Err(e) => {
                &&& e == PhysicalMemoryAllocatorNewError::CouldNotFindMmap
                &&& first_mmap(old(tag_iter).tag_seq()) is None
            },
        },
{
    PhysicalMemoryAllocator::new(tag_iter, kernel_start, kernel_end)
}

} // verus!

verus! {

/// Allocating a run and freeing that same range restores the bitmap.
///
/// For every page count `n` for which a contiguous all-free run exists,
/// `allocate(n)` returns a page-aligned address whose `n`-page run was all
/// free before the call (its contract); this lemma adds that the run is all
/// allocated afterwards — so `free` of exactly that range succeeds — and
/// that the `free` restores every bit of the manager to its previous state.
pub proof fn lemma_allocate_free_restores(
    pre: PhysicalMemoryAllocator,
    mid: PhysicalMemoryAllocator,
    post: PhysicalMemoryAllocator,
    addr: u32,
    n: usize,
)
    requires
        // What `allocate(n)` ensures when it returns `Some(addr)`:
        mid.first_page() == pre.first_page(),
        mid.page_count() == pre.page_count(),
        free_run(pre.bits(), (addr as int - pre.first_page()) / 4096, n as int),
        mid.bits() == spec_allocated(pre.bits(), (addr as int - pre.first_page()) / 4096, n as int),
        // What `free(addr, n)` ensures when it returns `Ok`:
        post.bits() == spec_freed(mid.bits(), (addr as int - mid.first_page()) / 4096, n as int),
    ensures
        all_set(mid.bits(), (addr as int - pre.first_page()) / 4096, n as int),
        post.bits() == pre.bits(),
{
    let bit = (addr as int - pre.first_page()) / 4096;
    assert(post.bits() =~= pre.bits());
}

/// Allocation never hands out overlapping ranges.
///
/// Two successive non-empty allocations without an intervening free return
/// page runs that do not overlap: the first run is all allocated when the
/// second is handed out, and the second's run was all free then.
pub proof fn lemma_allocate_disjoint(
    pre: PhysicalMemoryAllocator,
    mid: PhysicalMemoryAllocator,
    post: PhysicalMemoryAllocator,
    a1: u32,
    n1: usize,
    a2: u32,
    n2: usize,
)
    requires
        n1 >= 1,
        n2 >= 1,
        // What the first `allocate(n1)` ensures when it returns `Some(a1)`:
        mid.first_page() == pre.first_page(),
        a1 as int == pre.first_page() + 4096 * ((a1 as int - pre.first_page()) / 4096),
        free_run(pre.bits(), (a1 as int - pre.first_page()) / 4096, n1 as int),
        mid.bits() == spec_allocated(pre.bits(), (a1 as int - pre.first_page()) / 4096, n1 as int),
        // What the second `allocate(n2)` ensures when it returns `Some(a2)`:
        a2 as int == mid.first_page() + 4096 * ((a2 as int - mid.first_page()) / 4096),
        free_run(mid.bits(), (a2 as int - mid.first_page()) / 4096, n2 as int),
        post.bits() == spec_allocated(mid.bits(), (a2 as int - mid.first_page()) / 4096, n2 as int),
    ensures
        a1 as int + n1 as int * 4096 <= a2 as int || a2 as int + n2 as int * 4096 <= a1 as int,
{
    let b1 = (a1 as int - pre.first_page()) / 4096;
    let b2 = (a2 as int - mid.first_page()) / 4096;
    if !(b1 + n1 <= b2 || b2 + n2 <= b1) {
        let k = if b1 >= b2 {
            b1
        } else {
            b2
        };
        assert(b1 <= k < b1 + n1);
        assert(b2 <= k < b2 + n2);
        assert(mid.bits()[k]);
        assert(!mid.bits()[k]);
    }
    assert(b1 + n1 <= b2 || b2 + n2 <= b1);
}

} // verus!
