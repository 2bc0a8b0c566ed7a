//! The virtual memory manager: the two-level 32-bit paging structures.
//!
//! A page directory of 1024 entries governs 4 MiB each; an entry either maps
//! its whole 4 MiB directly (a large page) or points at a page table of 1024
//! entries mapping 4 KiB each. Entries are 32-bit words packed exactly as the
//! hardware defines them; [`map`](Vmm::map), [`map4mb`](Vmm::map4mb) and
//! [`unmap`](Vmm::unmap) keep the invariant that an entry is either absent or
//! describes exactly one mapping — mapping a present entry or unmapping an
//! absent one is the double-map / double-free fault of the page-table level.
//! Page tables are allocated from the physical memory manager on first use
//! and handed back when their last entry is unmapped.

use vstd::prelude::*;

use crate::bitmap::{count_free, free_run, spec_allocated};
use crate::fault::Fault;
use crate::pmm::PhysicalMemoryAllocator;

verus! {

/// One page-directory entry, unpacked. For a large page (`page_size`) the
/// address keeps its top 10 bits; otherwise it is the 4 KiB-aligned address
/// of a page table, and `dirty`, `global` and `page_attribute_table` do not
/// exist in the packed word.
#[derive(Clone, Copy, Debug, PartialEq, Eq, Structural)]
pub struct PageDirectoryEntry {
    pub addr: u32,
    pub present: bool,
    pub writable: bool,
    pub user: bool,
    pub write_through: bool,
    pub cache_disable: bool,
    pub accessed: bool,
    pub page_size: bool,
    pub global: bool,
    pub page_attribute_table: bool,
    pub dirty: bool,
}

/// One page-table entry, unpacked: a 4 KiB mapping.
#[derive(Clone, Copy, Debug, PartialEq, Eq, Structural)]
pub struct PageTableEntry {
    pub addr: u32,
    pub global: bool,
    pub page_attribute_table: bool,
    pub dirty: bool,
    pub present: bool,
    pub writable: bool,
    pub user: bool,
    pub write_through: bool,
    pub cache_disable: bool,
    pub accessed: bool,
}

/// 1 when the flag is set.
pub open spec fn flag_bit(b: bool) -> u32 {
    if b {
        1u32
    } else {
        0u32
    }
}

/// The packed word of a page-directory entry: bit 0 present, 1 writable,
/// 2 user, 3 write-through, 4 cache-disable, 5 accessed, 7 page-size; for a
/// large page also bit 6 dirty, 8 global, 12 PAT and the address's top
/// 10 bits; for a page-table pointer the address's top 20 bits.
pub open spec fn spec_pde_to_u32(e: PageDirectoryEntry) -> u32 {
    flag_bit(e.present) | (flag_bit(e.writable) << 1) | (flag_bit(e.user) << 2) | (flag_bit(
        e.write_through,
    ) << 3) | (flag_bit(e.cache_disable) << 4) | (flag_bit(e.accessed) << 5) | (if e.page_size {
        flag_bit(e.dirty) << 6
    } else {
        0u32
    }) | (flag_bit(e.page_size) << 7) | (if e.page_size {
        (flag_bit(e.global) << 8) | (flag_bit(e.page_attribute_table) << 12) | ((e.addr >> 22)
            << 22)
    } else {
        (e.addr >> 12) << 12
    })
}

/// The page-directory entry a packed word denotes.
pub open spec fn spec_pde_from_u32(w: u32) -> PageDirectoryEntry {
    let page_size = w & (1u32 << 7) != 0;
    PageDirectoryEntry {
        addr: if page_size {
            (w >> 22) << 22
        } else {
            (w >> 12) << 12
        },
        present: w & 1u32 != 0,
        writable: w & (1u32 << 1) != 0,
        user: w & (1u32 << 2) != 0,
        write_through: w & (1u32 << 3) != 0,
        cache_disable: w & (1u32 << 4) != 0,
        accessed: w & (1u32 << 5) != 0,
        page_size,
        global: page_size && w & (1u32 << 8) != 0,
        page_attribute_table: page_size && w & (1u32 << 12) != 0,
        dirty: page_size && w & (1u32 << 6) != 0,
    }
}

/// The packed word of a page-table entry: bit 0 present, 1 writable, 2 user,
/// 3 write-through, 4 cache-disable, 5 accessed, 6 dirty, 7 PAT, 8 global,
/// and the 4 KiB-aligned address's top 20 bits.
pub open spec fn spec_pte_to_u32(e: PageTableEntry) -> u32 {
    flag_bit(e.present) | (flag_bit(e.writable) << 1) | (flag_bit(e.user) << 2) | (flag_bit(
        e.write_through,
    ) << 3) | (flag_bit(e.cache_disable) << 4) | (flag_bit(e.accessed) << 5) | (flag_bit(e.dirty)
        << 6) | (flag_bit(e.page_attribute_table) << 7) | (flag_bit(e.global) << 8) | ((e.addr
        >> 12) << 12)
}

/// The page-table entry a packed word denotes.
pub open spec fn spec_pte_from_u32(w: u32) -> PageTableEntry {
    PageTableEntry {
        addr: (w >> 12) << 12,
        present: w & 1u32 != 0,
        writable: w & (1u32 << 1) != 0,
        user: w & (1u32 << 2) != 0,
        write_through: w & (1u32 << 3) != 0,
        cache_disable: w & (1u32 << 4) != 0,
        accessed: w & (1u32 << 5) != 0,
        dirty: w & (1u32 << 6) != 0,
        page_attribute_table: w & (1u32 << 7) != 0,
        global: w & (1u32 << 8) != 0,
    }
}

/// A decoded entry's address is always aligned to its page granularity:
/// decoding masks the low bits away.
pub proof fn lemma_decoded_addr_aligned(w: u32)
    ensures
        spec_pde_from_u32(w).addr_aligned(),
        spec_pte_from_u32(w).addr % 4096 == 0,
{
    assert((((w >> 12) << 12) % 4096 == 0) && (((w >> 22) << 22) % 0x40_0000 == 0) && (((w >> 12)
        << 12) as int % 4096 == 0) && (((w >> 22) << 22) as int % 0x40_0000 == 0)) by (bit_vector);
}

/// The word 0 denotes an absent entry, at both levels.
pub proof fn lemma_zero_word_absent()
    ensures
        !spec_pde_from_u32(0).present,
        !spec_pte_from_u32(0).present,
        !spec_pde_from_u32(0).page_size,
{
    assert(0u32 & 1u32 == 0 && 0u32 & (1u32 << 7) == 0) by (bit_vector);
}

/// Packing a page-directory entry and unpacking the word gives the entry
/// back, provided its address is aligned for its page size and the fields a
/// non-large entry does not carry are clear.
pub proof fn lemma_pde_roundtrip(e: PageDirectoryEntry)
    requires
        e.page_size ==> e.addr % 0x40_0000 == 0,
        !e.page_size ==> e.addr % 4096 == 0,
        !e.page_size ==> !e.dirty && !e.global && !e.page_attribute_table,
    ensures
        spec_pde_from_u32(spec_pde_to_u32(e)) == e,
{
    let p = e.present;
    let w = e.writable;
    let u = e.user;
    let wt = e.write_through;
    let cd = e.cache_disable;
    let ac = e.accessed;
    let ps = e.page_size;
    let g = e.global;
    let pat = e.page_attribute_table;
    let d = e.dirty;
    let a = e.addr;
    assert({
        let word2 = flag_bit(p) | (flag_bit(w) << 1) | (flag_bit(u) << 2) | (flag_bit(wt) << 3) | (
        flag_bit(cd) << 4) | (flag_bit(ac) << 5) | (if ps {
            flag_bit(d) << 6
        } else {
            0u32
        }) | (flag_bit(ps) << 7) | (if ps {
            (flag_bit(g) << 8) | (flag_bit(pat) << 12) | ((a >> 22) << 22)
        } else {
            (a >> 12) << 12
        });
        &&& (word2 & 1u32 != 0) == p
        &&& (word2 & (1u32 << 1) != 0) == w
        &&& (word2 & (1u32 << 2) != 0) == u
        &&& (word2 & (1u32 << 3) != 0) == wt
        &&& (word2 & (1u32 << 4) != 0) == cd
        &&& (word2 & (1u32 << 5) != 0) == ac
        &&& (word2 & (1u32 << 7) != 0) == ps
        &&& ps ==> (word2 & (1u32 << 6) != 0) == d
        &&& ps ==> (word2 & (1u32 << 8) != 0) == g
        &&& ps ==> (word2 & (1u32 << 12) != 0) == pat
        &&& ps ==> ((word2 >> 22) << 22) == a
        &&& !ps ==> ((word2 >> 12) << 12) == a
    }) by (bit_vector)
        requires
            ps ==> a % 0x40_0000 == 0,
            !ps ==> a % 4096 == 0,
    ;
}

/// Packing a page-table entry and unpacking the word gives the entry back,
/// provided its address is 4 KiB-aligned.
pub proof fn lemma_pte_roundtrip(e: PageTableEntry)
    requires
        e.addr % 4096 == 0,
    ensures
        spec_pte_from_u32(spec_pte_to_u32(e)) == e,
{
    let p = e.present;
    let w = e.writable;
    let u = e.user;
    let wt = e.write_through;
    let cd = e.cache_disable;
    let ac = e.accessed;
    let g = e.global;
    let pat = e.page_attribute_table;
    let d = e.dirty;
    let a = e.addr;
    assert({
        let word2 = flag_bit(p) | (flag_bit(w) << 1) | (flag_bit(u) << 2) | (flag_bit(wt) << 3) | (
        flag_bit(cd) << 4) | (flag_bit(ac) << 5) | (flag_bit(d) << 6) | (flag_bit(pat) << 7) | (
        flag_bit(g) << 8) | ((a >> 12) << 12);
        &&& (word2 & 1u32 != 0) == p
        &&& (word2 & (1u32 << 1) != 0) == w
        &&& (word2 & (1u32 << 2) != 0) == u
        &&& (word2 & (1u32 << 3) != 0) == wt
        &&& (word2 & (1u32 << 4) != 0) == cd
        &&& (word2 & (1u32 << 5) != 0) == ac
        &&& (word2 & (1u32 << 6) != 0) == d
        &&& (word2 & (1u32 << 7) != 0) == pat
        &&& (word2 & (1u32 << 8) != 0) == g
        &&& ((word2 >> 12) << 12) == a
    }) by (bit_vector)
        requires
            a % 4096 == 0,
    ;
}

impl PageDirectoryEntry {
    /// The entry's address is aligned for its page size.
    pub open spec fn addr_aligned(self) -> bool {
        if self.page_size {
            self.addr % 0x40_0000 == 0
        } else {
            self.addr % 4096 == 0
        }
    }

    /// Packs the entry into its hardware word. The address must be aligned
    /// to the page granularity the size flag implies.
    pub fn to_u32(&self) -> (r: u32)
        requires
            self.addr_aligned(),
        ensures
            r == spec_pde_to_u32(*self),
    {
        let mut end_u32: u32 = flag_bit_exec(self.present);
        end_u32 = end_u32 | (flag_bit_exec(self.writable) << 1);
        end_u32 = end_u32 | (flag_bit_exec(self.user) << 2);
        end_u32 = end_u32 | (flag_bit_exec(self.write_through) << 3);
        end_u32 = end_u32 | (flag_bit_exec(self.cache_disable) << 4);
        end_u32 = end_u32 | (flag_bit_exec(self.accessed) << 5);
        if self.page_size {
            end_u32 = end_u32 | (flag_bit_exec(self.dirty) << 6);
        }
        end_u32 = end_u32 | (flag_bit_exec(self.page_size) << 7);
        if self.page_size {
            end_u32 = end_u32 | (flag_bit_exec(self.global) << 8);
            end_u32 = end_u32 | (flag_bit_exec(self.page_attribute_table) << 12);
            end_u32 = end_u32 | ((self.addr >> 22) << 22);
        } else {
            end_u32 = end_u32 | ((self.addr >> 12) << 12);
        }
        proof {
            lemma_or_zero_assoc();
        }
        end_u32
    }

    /// Unpacks a hardware word.
    pub fn from_u32(from: u32) -> (r: Self)
        ensures
            r == spec_pde_from_u32(from),
    {
        let present: bool = (from & 1u32) != 0;
        let writable: bool = (from & (1u32 << 1)) != 0;
        let user: bool = (from & (1u32 << 2)) != 0;
        let write_through: bool = (from & (1u32 << 3)) != 0;
        let cache_disable: bool = (from & (1u32 << 4)) != 0;
        let accessed: bool = (from & (1u32 << 5)) != 0;
        let page_size: bool = (from & (1u32 << 7)) != 0;
        let dirty: bool;
        let global: bool;
        let page_attribute_table: bool;
        let addr: u32;
        if page_size {
            dirty = (from & (1u32 << 6)) != 0;
            global = (from & (1u32 << 8)) != 0;
            page_attribute_table = (from & (1u32 << 12)) != 0;
            addr = (from >> 22) << 22;
        } else {
            dirty = false;
            global = false;
            page_attribute_table = false;
            addr = (from >> 12) << 12;
        }
        PageDirectoryEntry {
            addr,
            present,
            writable,
            user,
            write_through,
            cache_disable,
            accessed,
            page_size,
            global,
            page_attribute_table,
            dirty,
        }
    }
}

impl Default for PageDirectoryEntry {
    /// The absent entry: every field clear.
    fn default() -> (r: Self)
        ensures
            r == spec_pde_from_u32(0),
    {
        proof {
            lemma_pde_zero_fields();
        }
        PageDirectoryEntry {
            addr: 0,
            present: false,
            writable: false,
            user: false,
            write_through: false,
            cache_disable: false,
            accessed: false,
            page_size: false,
            global: false,
            page_attribute_table: false,
            dirty: false,
        }
    }
}

impl PageTableEntry {
    /// Packs the entry into its hardware word. The address must be
    /// 4 KiB-aligned.
    pub fn to_u32(&self) -> (r: u32)
        requires
            self.addr % 4096 == 0,
        ensures
            r == spec_pte_to_u32(*self),
    {
        let mut end_u32: u32 = flag_bit_exec(self.present);
        end_u32 = end_u32 | (flag_bit_exec(self.writable) << 1);
        end_u32 = end_u32 | (flag_bit_exec(self.user) << 2);
        end_u32 = end_u32 | (flag_bit_exec(self.write_through) << 3);
        end_u32 = end_u32 | (flag_bit_exec(self.cache_disable) << 4);
        end_u32 = end_u32 | (flag_bit_exec(self.accessed) << 5);
        end_u32 = end_u32 | (flag_bit_exec(self.dirty) << 6);
        end_u32 = end_u32 | (flag_bit_exec(self.page_attribute_table) << 7);
        end_u32 = end_u32 | (flag_bit_exec(self.global) << 8);
        end_u32 = end_u32 | ((self.addr >> 12) << 12);
        end_u32
    }

    /// Unpacks a hardware word.
    pub fn from_u32(from: u32) -> (r: Self)
        ensures
            r == spec_pte_from_u32(from),
    {
        PageTableEntry {
            addr: (from >> 12) << 12,
            present: (from & 1u32) != 0,
            writable: (from & (1u32 << 1)) != 0,
            user: (from & (1u32 << 2)) != 0,
            write_through: (from & (1u32 << 3)) != 0,
            cache_disable: (from & (1u32 << 4)) != 0,
            accessed: (from & (1u32 << 5)) != 0,
            dirty: (from & (1u32 << 6)) != 0,
            page_attribute_table: (from & (1u32 << 7)) != 0,
            global: (from & (1u32 << 8)) != 0,
        }
    }
}

impl Default for PageTableEntry {
    /// The absent entry: every field clear.
    fn default() -> (r: Self)
        ensures
            r == spec_pte_from_u32(0),
    {
        proof {
            lemma_pte_zero_fields();
        }
        PageTableEntry {
            addr: 0,
            present: false,
            writable: false,
            user: false,
            write_through: false,
            cache_disable: false,
            accessed: false,
            global: false,
            page_attribute_table: false,
            dirty: false,
        }
    }
}

fn flag_bit_exec(b: bool) -> (r: u32)
    ensures
        r == flag_bit(b),
{
    if b {
        1
    } else {
        0
    }
}

proof fn lemma_or_zero_assoc()
    by (bit_vector)
    ensures
        forall|x: u32| #[trigger] (x | 0u32) == x,
        forall|x: u32, y: u32, z: u32| #[trigger] ((x | y) | z) == x | (y | z),
{
}

proof fn lemma_pde_zero_fields()
    ensures
        spec_pde_from_u32(0) == (PageDirectoryEntry {
            addr: 0,
            present: false,
            writable: false,
            user: false,
            write_through: false,
            cache_disable: false,
            accessed: false,
            page_size: false,
            global: false,
            page_attribute_table: false,
            dirty: false,
        }),
{
    assert(0u32 & 1u32 == 0 && 0u32 & (1u32 << 1) == 0 && 0u32 & (1u32 << 2) == 0 && 0u32 & (1u32
        << 3) == 0 && 0u32 & (1u32 << 4) == 0 && 0u32 & (1u32 << 5) == 0 && 0u32 & (1u32 << 7) == 0
        && ((0u32 >> 12) << 12) == 0) by (bit_vector);
}

proof fn lemma_pte_zero_fields()
    ensures
        spec_pte_from_u32(0) == (PageTableEntry {
            addr: 0,
            present: false,
            writable: false,
            user: false,
            write_through: false,
            cache_disable: false,
            accessed: false,
            global: false,
            page_attribute_table: false,
            dirty: false,
        }),
{
    assert(0u32 & 1u32 == 0 && 0u32 & (1u32 << 1) == 0 && 0u32 & (1u32 << 2) == 0 && 0u32 & (1u32
        << 3) == 0 && 0u32 & (1u32 << 4) == 0 && 0u32 & (1u32 << 5) == 0 && 0u32 & (1u32 << 6) == 0
        && 0u32 & (1u32 << 7) == 0 && 0u32 & (1u32 << 8) == 0 && ((0u32 >> 12) << 12) == 0) by (bit_vector);
}

} // verus!

verus! {

/// A page-aligned array of 1024 packed directory entries.
pub struct PageDirectory {
    entries: Vec<u32>,
}

impl PageDirectory {
    /// The packed words.
    pub closed spec fn view(&self) -> Seq<u32> {
        self.entries@
    }

    /// The directory holds exactly 1024 words.
    pub closed spec fn wf(&self) -> bool {
        self.entries@.len() == 1024
    }

    /// A directory of absent entries.
    pub fn create() -> (r: PageDirectory)
        ensures
            r.wf(),
            forall|i: int| 0 <= i < 1024 ==> r@[i] == 0u32,
    {
        PageDirectory { entries: zeroed_words() }
    }

    /// A well-formed directory holds exactly 1024 words.
    pub proof fn lemma_len(&self)
        requires
            self.wf(),
        ensures
            self@.len() == 1024,
    {
    }

    /// Packs `value` into slot `idx`.
    pub fn set(&mut self, idx: usize, value: PageDirectoryEntry)
        requires
            old(self).wf(),
            idx < 1024,
            value.addr_aligned(),
        ensures
            final(self).wf(),
            final(self)@ == old(self)@.update(idx as int, spec_pde_to_u32(value)),
    {
        let w = value.to_u32();
        self.entries[idx] = w;
    }

    /// Unpacks slot `idx`.
    pub fn get(&self, idx: usize) -> (r: PageDirectoryEntry)
        requires
            self.wf(),
            idx < 1024,
        ensures
            r == spec_pde_from_u32(self@[idx as int]),
    {
        PageDirectoryEntry::from_u32(self.entries[idx])
    }
}

/// A page-aligned array of 1024 packed page-table entries.
pub struct PageTable {
    entries: Vec<u32>,
}

impl PageTable {
    /// The packed words.
    pub closed spec fn view(&self) -> Seq<u32> {
        self.entries@
    }

    /// The table holds exactly 1024 words.
    pub closed spec fn wf(&self) -> bool {
        self.entries@.len() == 1024
    }

    /// A table of absent entries.
    pub fn create() -> (r: PageTable)
        ensures
            r.wf(),
            forall|i: int| 0 <= i < 1024 ==> r@[i] == 0u32,
    {
        PageTable { entries: zeroed_words() }
    }

    /// A well-formed table holds exactly 1024 words.
    pub proof fn lemma_len(&self)
        requires
            self.wf(),
        ensures
            self@.len() == 1024,
    {
    }

    /// Packs `value` into slot `idx`.
    pub fn set(&mut self, idx: usize, value: PageTableEntry)
        requires
            old(self).wf(),
            idx < 1024,
            value.addr % 4096 == 0,
        ensures
            final(self).wf(),
            final(self)@ == old(self)@.update(idx as int, spec_pte_to_u32(value)),
    {
        let w = value.to_u32();
        self.entries[idx] = w;
    }

    /// Unpacks slot `idx`.
    pub fn get(&self, idx: usize) -> (r: PageTableEntry)
        requires
            self.wf(),
            idx < 1024,
        ensures
            r == spec_pte_from_u32(self@[idx as int]),
    {
        PageTableEntry::from_u32(self.entries[idx])
    }
}

/// 1024 zero words.
fn zeroed_words() -> (r: Vec<u32>)
    ensures
        r@.len() == 1024,
        forall|i: int| 0 <= i < 1024 ==> r@[i] == 0u32,
{
    let mut v: Vec<u32> = Vec::new();
    let mut k: usize = 0;
    while k < 1024
        invariant
            v@.len() == k,
            k <= 1024,
            forall|i: int| 0 <= i < k ==> v@[i] == 0u32,
        decreases 1024 - k,
    {
        v.push(0u32);
        k = k + 1;
    }
    v
}

/// The directory index of a virtual address: its top 10 bits.
pub open spec fn spec_pde_index(virt: u32) -> int {
    virt as int / 0x40_0000
}

/// The table index of a virtual address: its middle 10 bits.
pub open spec fn spec_pte_index(virt: u32) -> int {
    (virt as int / 4096) % 1024
}

/// The virtual page number of a virtual address.
pub open spec fn spec_vpage(virt: u32) -> int {
    virt as int / 4096
}

/// The shifted-and-masked index computations equal their arithmetic
/// meanings, and how page number, directory index and table index relate.
proof fn lemma_vaddr_indices(virt: u32)
    by (bit_vector)
    ensures
        ((virt >> 22) & 0x3ff) == virt as int / 0x40_0000,
        ((virt >> 12) & 0x3ff) == (virt as int / 4096) % 1024,
        virt as int / 4096 == (virt as int / 0x40_0000) * 1024 + (virt as int / 4096) % 1024,
        virt as int / 0x40_0000 < 1024,
        0 <= (virt as int / 4096) % 1024 < 1024,
        0 <= virt as int / 0x40_0000,
        0 <= virt as int / 4096 < 0x10_0000,
{
}

/// A page inside a run of at most 1024 pages lies in one of the two
/// directory slots the run's first and last pages lie in, which are the
/// same slot or adjacent ones.
pub proof fn lemma_vpage_in_slots(vp0: int, j: int, n: int)
    requires
        0 <= vp0,
        0 <= j < n,
        n <= 1024,
    ensures
        vp0 / 1024 <= (vp0 + j) / 1024 <= (vp0 + n - 1) / 1024,
        (vp0 + n - 1) / 1024 <= vp0 / 1024 + 1,
        (vp0 + j) / 1024 == vp0 / 1024 || (vp0 + j) / 1024 == (vp0 + n - 1) / 1024,
{
    vstd::arithmetic::div_mod::lemma_div_is_ordered(vp0, vp0 + j, 1024);
    vstd::arithmetic::div_mod::lemma_div_is_ordered(vp0 + j, vp0 + n - 1, 1024);
    vstd::arithmetic::div_mod::lemma_fundamental_div_mod(vp0, 1024);
    vstd::arithmetic::div_mod::lemma_mod_bound(vp0, 1024);
    vstd::arithmetic::div_mod::lemma_fundamental_div_mod(vp0 + n - 1, 1024);
    vstd::arithmetic::div_mod::lemma_mod_bound(vp0 + n - 1, 1024);
}

/// A page number splits uniquely into directory and table index.
proof fn lemma_vpage_split(vp: int)
    requires
        0 <= vp < 0x10_0000,
    ensures
        vp == (vp / 1024) * 1024 + vp % 1024,
        0 <= vp / 1024 < 1024,
        0 <= vp % 1024 < 1024,
{
    vstd::arithmetic::div_mod::lemma_fundamental_div_mod(vp, 1024);
    vstd::arithmetic::div_mod::lemma_mod_bound(vp, 1024);
}

/// The paging core's state: the page directory, the page table (if any)
/// behind each directory slot, and the control-register flags the
/// initialization sequence sets.
pub struct Vmm {
    directory: PageDirectory,
    tables: Vec<PageTable>,
    pse_enabled: bool,
    paging_enabled: bool,
}

impl Vmm {
    /// The packed directory words.
    pub closed spec fn dir_words(&self) -> Seq<u32> {
        self.directory@
    }

    /// The packed words of the table behind directory slot `d`.
    pub closed spec fn table_words(&self, d: int) -> Seq<u32> {
        self.tables@[d]@
    }

    /// Large-page-extension control bit.
    pub closed spec fn pse_on(&self) -> bool {
        self.pse_enabled
    }

    /// Paging-enable control bit.
    pub closed spec fn paging_on(&self) -> bool {
        self.paging_enabled
    }

    /// The directory and every table hold exactly 1024 words.
    pub closed spec fn wf(&self) -> bool {
        &&& self.directory.wf()
        &&& self.tables@.len() == 1024
        &&& forall|d: int| 0 <= d < 1024 ==> (#[trigger] self.tables@[d]).wf()
    }

    /// A well-formed paging core has 1024 directory words and 1024 words in
    /// every table.
    pub proof fn lemma_words_len(&self)
        requires
            self.wf(),
        ensures
            self.dir_words().len() == 1024,
            forall|d: int| 0 <= d < 1024 ==> (#[trigger] self.table_words(d)).len() == 1024,
    {
    }

    /// The unpacked directory entry of slot `d`.
    pub open spec fn pde_at(&self, d: int) -> PageDirectoryEntry {
        spec_pde_from_u32(self.dir_words()[d])
    }

    /// The unpacked page-table entry of slot `t` behind directory slot `d`.
    pub open spec fn pte_at(&self, d: int, t: int) -> PageTableEntry {
        spec_pte_from_u32(self.table_words(d)[t])
    }

    /// The 4 KiB mapping of virtual page `vp`, if its directory entry points
    /// at a table and the table entry is present.
    pub open spec fn mapping_4k(&self, vp: int) -> Option<PageTableEntry> {
        let d = vp / 1024;
        let t = vp % 1024;
        if self.pde_at(d).present && !self.pde_at(d).page_size && self.pte_at(d, t).present {
            Some(self.pte_at(d, t))
        } else {
            None
        }
    }

    /// The 4 MiB mapping of directory slot `d`, if its entry is a present
    /// large page.
    pub open spec fn large_at(&self, d: int) -> Option<PageDirectoryEntry> {
        if self.pde_at(d).present && self.pde_at(d).page_size {
            Some(self.pde_at(d))
        } else {
            None
        }
    }

    /// A paging core with every entry absent and both control bits clear.
    pub fn create() -> (r: Vmm)
        ensures
            r.wf(),
            !r.pse_on(),
            !r.paging_on(),
            forall|d: int| 0 <= d < 1024 ==> r.dir_words()[d] == 0u32,
            forall|d: int, t: int| 0 <= d < 1024 && 0 <= t < 1024 ==> r.table_words(d)[t] == 0u32,
            forall|vp: int| 0 <= vp < 0x10_0000 ==> r.mapping_4k(vp) is None,
            forall|d: int| 0 <= d < 1024 ==> r.large_at(d) is None,
    {
        let directory = PageDirectory::create();
        let mut tables: Vec<PageTable> = Vec::new();
        let mut k: usize = 0;
        while k < 1024
            invariant
                tables@.len() == k,
                k <= 1024,
                forall|d: int| 0 <= d < k ==> (#[trigger] tables@[d]).wf(),
                forall|d: int, t: int|
                    0 <= d < k && 0 <= t < 1024 ==> (#[trigger] tables@[d]@[t]) == 0u32,
            decreases 1024 - k,
        {
            tables.push(PageTable::create());
            k = k + 1;
        }
        let r = Vmm { directory, tables, pse_enabled: false, paging_enabled: false };
        proof {
            lemma_zero_word_absent();
            assert forall|vp: int| 0 <= vp < 0x10_0000 implies r.mapping_4k(vp) is None by {
                lemma_vpage_split(vp);
            }
        }
        r
    }

    /// The unpacked directory entry governing `virt_addr` — the read-back a
    /// caller uses to inspect a mapping.
    pub fn directory_entry(&self, virt_addr: u32) -> (r: PageDirectoryEntry)
        requires
            self.wf(),
        ensures
            r == self.pde_at(spec_pde_index(virt_addr)),
    {
        proof {
            lemma_vaddr_indices(virt_addr);
        }
        self.directory.get(((virt_addr >> 22) & 0x3ff) as usize)
    }

    /// The unpacked page-table entry governing `virt_addr`, read through its
    /// directory slot's table.
    pub fn table_entry(&self, virt_addr: u32) -> (r: PageTableEntry)
        requires
            self.wf(),
        ensures
            r == self.pte_at(spec_pde_index(virt_addr), spec_pte_index(virt_addr)),
    {
        proof {
            lemma_vaddr_indices(virt_addr);
        }
        let tbl = &self.tables[((virt_addr >> 22) & 0x3ff) as usize];
        tbl.get(((virt_addr >> 12) & 0x3ff) as usize)
    }
}

} // verus!

verus! {

/// The page-table entry `map` installs.
pub open spec fn spec_new_pte(
    phys_addr: u32,
    user: bool,
    writable: bool,
    cache_disable: bool,
    write_through: bool,
) -> PageTableEntry {
    PageTableEntry {
        addr: phys_addr,
        present: true,
        writable,
        user,
        write_through,
        cache_disable,
        accessed: false,
        dirty: false,
        global: false,
        page_attribute_table: false,
    }
}

/// The large-page directory entry `map4mb` installs.
pub open spec fn spec_new_large_pde(
    phys_addr: u32,
    user: bool,
    writable: bool,
    cache_disable: bool,
    write_through: bool,
) -> PageDirectoryEntry {
    PageDirectoryEntry {
        addr: phys_addr,
        present: true,
        page_size: true,
        writable,
        user,
        write_through,
        cache_disable,
        accessed: false,
        dirty: false,
        global: false,
        page_attribute_table: false,
    }
}

/// The page-table pointer entry `map` installs when it allocates a table.
pub open spec fn spec_table_pde(
    table_addr: u32,
    user: bool,
    writable: bool,
    cache_disable: bool,
    write_through: bool,
) -> PageDirectoryEntry {
    PageDirectoryEntry {
        addr: table_addr,
        present: true,
        page_size: false,
        writable,
        user,
        write_through,
        cache_disable,
        accessed: false,
        dirty: false,
        global: false,
        page_attribute_table: false,
    }
}

/// 1024 zero words: a freshly zeroed table.
pub open spec fn spec_zeroed_words() -> Seq<u32> {
    Seq::new(1024, |i: int| 0u32)
}

/// Every entry of a table except slot `t` is absent.
pub open spec fn table_empty_except(words: Seq<u32>, t: int) -> bool {
    forall|j: int| 0 <= j < 1024 && j != t ==> !spec_pte_from_u32(words[j]).present
}

/// The all-clear entries pack to the word 0.
proof fn lemma_default_encodes_zero()
    ensures
        spec_pde_to_u32(spec_pde_from_u32(0)) == 0,
        spec_pte_to_u32(spec_pte_from_u32(0)) == 0,
{
    lemma_pde_zero_fields();
    lemma_pte_zero_fields();
    assert((0u32 | (0u32 << 1) | (0u32 << 2) | (0u32 << 3) | (0u32 << 4) | (0u32 << 5) | 0u32 | (
    0u32 << 7) | ((0u32 >> 12) << 12)) == 0) by (bit_vector);
    assert((0u32 | (0u32 << 1) | (0u32 << 2) | (0u32 << 3) | (0u32 << 4) | (0u32 << 5) | (0u32
        << 6) | (0u32 << 7) | (0u32 << 8) | ((0u32 >> 12) << 12)) == 0) by (bit_vector);
}

impl Vmm {
    /// Maps the 4 KiB page at `phys_addr` to the virtual address `virt_addr`
    /// with the given permission and caching bits. If the governing
    /// directory entry is absent, a page table is first allocated from the
    /// physical memory manager, zeroed and installed. Mapping an address
    /// whose table entry is already present — or whose directory slot holds
    /// a large page — is the double-map fault; running out of physical
    /// memory for a new table is reported and changes nothing.
    pub fn map(
        &mut self,
        pmm: &mut PhysicalMemoryAllocator,
        phys_addr: u32,
        virt_addr: u32,
        user: bool,
        writable: bool,
        cache_disable: bool,
        write_through: bool,
    ) -> (r: Result<(), Fault>)
        requires
            old(self).wf(),
            old(pmm).wf(),
            phys_addr as int % 4096 == 0,
        ensures
            final(self).wf(),
            final(pmm).wf(),
            final(pmm).first_page() == old(pmm).first_page(),
            final(pmm).page_count() == old(pmm).page_count(),
            final(self).pse_on() == old(self).pse_on(),
            final(self).paging_on() == old(self).paging_on(),
            ({
                let d = spec_pde_index(virt_addr);
                let t = spec_pte_index(virt_addr);
                let vp = spec_vpage(virt_addr);
                let pde0 = old(self).pde_at(d);
                &&& (r == Err::<(), Fault>(Fault::DoubleMapLarge) <==> pde0.present
                    && pde0.page_size)
                &&& (r == Err::<(), Fault>(Fault::DoubleMap) <==> pde0.present && !pde0.page_size
                    && old(self).pte_at(d, t).present)
                &&& (r == Err::<(), Fault>(Fault::OutOfPhysicalMemory) <==> !pde0.present && (
                forall|j: int| !free_run(old(pmm).bits(), j, 1)))
                &&& (r is Ok <==> !(pde0.present && pde0.page_size) && !(pde0.present
                    && !pde0.page_size && old(self).pte_at(d, t).present) && (pde0.present || (
                exists|j: int| free_run(old(pmm).bits(), j, 1))))
                &&& (r is Err ==> *final(self) == *old(self) && *final(pmm) == *old(pmm))
                &&& (r is Ok ==> {
                    &&& final(self).mapping_4k(vp) == Some(
                        spec_new_pte(phys_addr, user, writable, cache_disable, write_through),
                    )
                    &&& final(self).pde_at(d).present && !final(self).pde_at(d).page_size
                    &&& (forall|p2: int|
                        0 <= p2 < 0x10_0000 && p2 != vp ==> final(self).mapping_4k(p2) == old(
                            self,
                        ).mapping_4k(p2))
                    &&& (forall|d2: int|
                        0 <= d2 < 1024 ==> final(self).large_at(d2) == old(self).large_at(d2))
                    &&& (forall|d2: int|
                        0 <= d2 < 1024 && d2 != d ==> final(self).table_words(d2) == old(
                            self,
                        ).table_words(d2))
                    &&& (pde0.present ==> {
                        &&& *final(pmm) == *old(pmm)
                        &&& final(self).dir_words() == old(self).dir_words()
                        &&& final(self).table_words(d) == old(self).table_words(d).update(
                            t,
                            spec_pte_to_u32(
                                spec_new_pte(phys_addr, user, writable, cache_disable,
                                write_through),
                            ),
                        )
                    })
                    &&& (!pde0.present ==> {
                        &&& count_free(final(pmm).bits()) == count_free(old(pmm).bits()) - 1
                        &&& exists|tb: int|
                            {
                                let table_addr = (old(pmm).first_page() + 4096 * tb) as u32;
                                &&& #[trigger] free_run(old(pmm).bits(), tb, 1)
                                &&& (forall|j: int|
                                    0 <= j < tb ==> !free_run(old(pmm).bits(), j, 1))
                                &&& final(pmm).bits() == spec_allocated(old(pmm).bits(), tb, 1)
                                &&& final(self).pde_at(d) == spec_table_pde(
                                    table_addr,
                                    user,
                                    writable,
                                    cache_disable,
                                    write_through,
                                )
                                &&& final(self).dir_words() == old(self).dir_words().update(
                                    d,
                                    spec_pde_to_u32(
                                        spec_table_pde(table_addr, user, writable, cache_disable,
                                        write_through),
                                    ),
                                )
                            }
                        &&& final(self).table_words(d) == spec_zeroed_words().update(
                            t,
                            spec_pte_to_u32(
                                spec_new_pte(phys_addr, user, writable, cache_disable,
                                write_through),
                            ),
                        )
                    })
                })
            }),
    {
        proof {
            lemma_vaddr_indices(virt_addr);
        }
        let pde_i = ((virt_addr >> 22) & 0x3ff) as usize;
        let pte_i = ((virt_addr >> 12) & 0x3ff) as usize;
        let ghost d = pde_i as int;
        let ghost t = pte_i as int;
        let ghost vp = spec_vpage(virt_addr);
        proof {
            vstd::arithmetic::div_mod::lemma_fundamental_div_mod_converse(vp, 1024, d, t);
        }
        let dir_e = self.directory.get(pde_i);
        if dir_e.present && dir_e.page_size {
            return Err(Fault::DoubleMapLarge);
        }
        let had_pde = dir_e.present;
        if !had_pde {
            let pt_addr = match pmm.allocate(1) {
                Some(a) => a,
                None => {
                    return Err(Fault::OutOfPhysicalMemory);
                },
            };
            proof {
                let obits = old(pmm).bits();
                let bit = (pt_addr as int - old(pmm).first_page()) / 4096;
                assert(pmm.bits() =~= obits.update(bit, true));
                crate::bitmap::lemma_count_free_update(obits, bit, true);
            }
            let fresh = PageTable::create();
            self.tables[pde_i] = fresh;
            let new_pde = PageDirectoryEntry {
                addr: pt_addr,
                present: true,
                page_size: false,
                writable,
                user,
                cache_disable,
                write_through,
                accessed: false,
                dirty: false,
                global: false,
                page_attribute_table: false,
            };
            self.directory.set(pde_i, new_pde);
            proof {
                lemma_pde_roundtrip(new_pde);
            }
        }
        let entry = {
            let tbl = &self.tables[pde_i];
            tbl.get(pte_i)
        };
        if entry.present {
            proof {
                lemma_zero_word_absent();
                assert(had_pde);
            }
            return Err(Fault::DoubleMap);
        }
        let e = PageTableEntry {
            addr: phys_addr,
            present: true,
            writable,
            user,
            cache_disable,
            write_through,
            accessed: false,
            dirty: false,
            global: false,
            page_attribute_table: false,
        };
        let tbl = &mut self.tables[pde_i];
        tbl.set(pte_i, e);
        proof {
            lemma_pte_roundtrip(e);
            lemma_zero_word_absent();
        }
        proof {
            assert(self.mapping_4k(vp) == Some(
                spec_new_pte(phys_addr, user, writable, cache_disable, write_through),
            ));
            assert forall|p2: int|
                0 <= p2 < 0x10_0000 && p2 != vp implies self.mapping_4k(p2) == old(
                self,
            ).mapping_4k(p2) by {
                lemma_vpage_split(p2);
                let d2 = p2 / 1024;
                let t2 = p2 % 1024;
                if d2 == d {
                    assert(t2 != t);
                }
            }
            assert forall|d2: int| 0 <= d2 < 1024 implies self.large_at(d2) == old(self).large_at(
                d2,
            ) by {}
        }
        Ok(())
    }
}

} // verus!

verus! {

impl Vmm {
    /// Maps the 4 MiB page at `phys_addr` directly from directory slot
    /// `spec_pde_index(virt_addr)` with the given permission and caching
    /// bits. Mapping a slot whose entry is already present is the double-map
    /// fault at the directory level.
    pub fn map4mb(
        &mut self,
        phys_addr: u32,
        virt_addr: u32,
        user: bool,
        writable: bool,
        cache_disable: bool,
        write_through: bool,
    ) -> (r: Result<(), Fault>)
        requires
            old(self).wf(),
            phys_addr as int % 0x40_0000 == 0,
        ensures
            final(self).wf(),
            final(self).pse_on() == old(self).pse_on(),
            final(self).paging_on() == old(self).paging_on(),
            ({
                let d = spec_pde_index(virt_addr);
                let pde0 = old(self).pde_at(d);
                &&& (r == Err::<(), Fault>(Fault::DoubleMapLarge) <==> pde0.present)
                &&& (r is Ok <==> !pde0.present)
                &&& (r is Err ==> *final(self) == *old(self))
                &&& (r is Ok ==> {
                    &&& final(self).large_at(d) == Some(
                        spec_new_large_pde(phys_addr, user, writable, cache_disable, write_through),
                    )
                    &&& final(self).dir_words() == old(self).dir_words().update(
                        d,
                        spec_pde_to_u32(
                            spec_new_large_pde(phys_addr, user, writable, cache_disable,
                            write_through),
                        ),
                    )
                    &&& (forall|d2: int|
                        0 <= d2 < 1024 ==> final(self).table_words(d2) == old(self).table_words(
                            d2,
                        ))
                    &&& (forall|d2: int|
                        0 <= d2 < 1024 && d2 != d ==> final(self).large_at(d2) == old(
                            self,
                        ).large_at(d2))
                    &&& (forall|p2: int|
                        0 <= p2 < 0x10_0000 ==> final(self).mapping_4k(p2) == old(self).mapping_4k(
                            p2,
                        ))
                })
            }),
    {
        proof {
            lemma_vaddr_indices(virt_addr);
        }
        let pde_i = ((virt_addr >> 22) & 0x3ff) as usize;
        let ghost d = pde_i as int;
        let dir_e = self.directory.get(pde_i);
        if dir_e.present {
            return Err(Fault::DoubleMapLarge);
        }
        let new_pde = PageDirectoryEntry {
            addr: phys_addr,
            present: true,
            page_size: true,
            writable,
            user,
            cache_disable,
            write_through,
            accessed: false,
            dirty: false,
            global: false,
            page_attribute_table: false,
        };
        self.directory.set(pde_i, new_pde);
        proof {
            lemma_pde_roundtrip(new_pde);
            assert forall|p2: int|
                0 <= p2 < 0x10_0000 implies self.mapping_4k(p2) == old(self).mapping_4k(p2) by {
                lemma_vpage_split(p2);
            }
        }
        Ok(())
    }

    /// Unmaps the virtual address `virt_addr`. A large-page directory entry
    /// is cleared whole. A 4 KiB entry is cleared in its table; if that
    /// leaves the table with no present entry, the table's physical page is
    /// handed back to the physical memory manager and the directory slot is
    /// cleared too. Unmapping an address whose directory or table entry is
    /// absent is a fault, and nothing changes.
    pub fn unmap(&mut self, pmm: &mut PhysicalMemoryAllocator, virt_addr: u32) -> (r: Result<
        (),
        Fault,
    >)
        requires
            old(self).wf(),
            old(pmm).wf(),
        ensures
            final(self).wf(),
            final(pmm).wf(),
            final(pmm).first_page() == old(pmm).first_page(),
            final(pmm).page_count() == old(pmm).page_count(),
            final(self).pse_on() == old(self).pse_on(),
            final(self).paging_on() == old(self).paging_on(),
            ({
                let d = spec_pde_index(virt_addr);
                let t = spec_pte_index(virt_addr);
                let vp = spec_vpage(virt_addr);
                let pde0 = old(self).pde_at(d);
                let pte0 = old(self).pte_at(d, t);
                let was_large = pde0.present && pde0.page_size;
                let was_4k = pde0.present && !pde0.page_size && pte0.present;
                let empties = table_empty_except(old(self).table_words(d), t);
                let fp = old(pmm).first_page();
                let pc = old(pmm).page_count();
                let table_in_range = fp <= pde0.addr as int && pde0.addr as int + 4096 <= fp + pc
                    * 4096;
                let tbit = (pde0.addr as int - fp) / 4096;
                let table_allocated = crate::bitmap::all_set(old(pmm).bits(), tbit, 1);
                &&& (r == Err::<(), Fault>(Fault::UnmapAbsent) <==> !pde0.present || (
                !pde0.page_size && !pte0.present))
                &&& (r is Ok <==> was_large || (was_4k && (!empties || (table_in_range
                    && table_allocated))))
                &&& (r is Err ==> *final(self) == *old(self) && *final(pmm) == *old(pmm))
                &&& (was_large ==> r is Ok && *final(pmm) == *old(pmm) && final(self).dir_words()
                    == old(self).dir_words().update(d, 0u32) && (forall|d2: int|
                    0 <= d2 < 1024 ==> final(self).table_words(d2) == old(self).table_words(d2)))
                &&& (was_4k && !empties ==> r is Ok && *final(pmm) == *old(pmm) && final(self).dir_words() == old(self).dir_words() && final(self).table_words(d) == old(
                    self,
                ).table_words(d).update(t, 0u32) && (forall|d2: int|
                    0 <= d2 < 1024 && d2 != d ==> final(self).table_words(d2) == old(
                        self,
                    ).table_words(d2)))
                &&& (was_4k && empties ==> {
                    &&& (!table_in_range ==> r == Err::<(), Fault>(Fault::FreeOutOfRange))
                    &&& (table_in_range && !table_allocated ==> r == Err::<(), Fault>(
                        Fault::DoubleFree,
                    ))
                    &&& (table_in_range && table_allocated ==> r is Ok && final(self).dir_words()
                        == old(self).dir_words().update(d, 0u32) && (forall|d2: int|
                        0 <= d2 < 1024 ==> final(self).table_words(d2) == old(self).table_words(
                            d2,
                        )) && final(pmm).bits() == old(pmm).bits().update(tbit, false)
                        && count_free(final(pmm).bits()) == count_free(old(pmm).bits()) + 1)
                })
                &&& (r is Ok ==> final(self).mapping_4k(vp) is None && final(self).large_at(d)
                    is None && (forall|p2: int|
                    0 <= p2 < 0x10_0000 && p2 != vp ==> final(self).mapping_4k(p2) == old(
                        self,
                    ).mapping_4k(p2)) && (forall|d2: int|
                    0 <= d2 < 1024 && d2 != d ==> final(self).large_at(d2) == old(self).large_at(
                        d2,
                    )))
            }),
    {
        proof {
            lemma_vaddr_indices(virt_addr);
        }
        let pde_i = ((virt_addr >> 22) & 0x3ff) as usize;
        let pte_i = ((virt_addr >> 12) & 0x3ff) as usize;
        let ghost d = pde_i as int;
        let ghost t = pte_i as int;
        let ghost vp = spec_vpage(virt_addr);
        proof {
            vstd::arithmetic::div_mod::lemma_fundamental_div_mod_converse(vp, 1024, d, t);
            lemma_zero_word_absent();
            lemma_default_encodes_zero();
            lemma_pde_zero_fields();
            lemma_pte_zero_fields();
        }
        let dir_e = self.directory.get(pde_i);
        proof {
            lemma_decoded_addr_aligned(old(self).dir_words()[d]);
            old(pmm).lemma_bits_len();
        }
        if !dir_e.present {
            return Err(Fault::UnmapAbsent);
        }
        if dir_e.page_size {
            self.directory.set(pde_i, PageDirectoryEntry::default());
            proof {
                assert forall|p2: int|
                    0 <= p2 < 0x10_0000 && p2 != vp implies self.mapping_4k(p2) == old(
                    self,
                ).mapping_4k(p2) by {
                    lemma_vpage_split(p2);
                }
            }
            return Ok(());
        }
        let entry = {
            let tbl = &self.tables[pde_i];
            tbl.get(pte_i)
        };
        if !entry.present {
            return Err(Fault::UnmapAbsent);
        }
        let mut others = false;
        let mut j: usize = 0;
        while j < 1024
            invariant
                *self == *old(self),
                self.wf(),
                pde_i < 1024,
                pte_i < 1024,
                j <= 1024,
                d == pde_i as int,
                others == exists|k: int|
                    0 <= k < j && k != pte_i as int && (#[trigger] spec_pte_from_u32(
                        self.table_words(d)[k],
                    )).present,
            decreases 1024 - j,
        {
            let e2 = {
                let tbl = &self.tables[pde_i];
                tbl.get(j)
            };
            if j != pte_i && e2.present {
                others = true;
                proof {
                    assert(spec_pte_from_u32(self.table_words(d)[j as int]).present);
                }
            }
            j = j + 1;
        }
        proof {
            assert(others == !table_empty_except(old(self).table_words(d), t));
        }
        if others {
            let tbl = &mut self.tables[pde_i];
            tbl.set(pte_i, PageTableEntry::default());
            proof {
                assert forall|p2: int|
                    0 <= p2 < 0x10_0000 && p2 != vp implies self.mapping_4k(p2) == old(
                    self,
                ).mapping_4k(p2) by {
                    lemma_vpage_split(p2);
                    let d2 = p2 / 1024;
                    let t2 = p2 % 1024;
                    if d2 == d {
                        assert(t2 != t);
                    }
                }
            }
            return Ok(());
        }
        match pmm.free(dir_e.addr, 1) {
            Err(f) => {
                return Err(f);
            },
            Ok(()) => {},
        }
        proof {
            let obits = old(pmm).bits();
            let fp = old(pmm).first_page();
            let pc = old(pmm).page_count();
            let tbit = (dir_e.addr as int - fp) / 4096;
            assert(0 <= dir_e.addr as int - fp && dir_e.addr as int - fp + 4096 <= pc * 4096);
            vstd::arithmetic::div_mod::lemma_fundamental_div_mod(dir_e.addr as int - fp, 4096);
            vstd::arithmetic::div_mod::lemma_mod_bound(dir_e.addr as int - fp, 4096);
            assert(0 <= tbit < pc);
            assert(obits.len() == pc);
            assert(pmm.bits() == Seq::new(obits.len(), |i: int| !(tbit <= i < tbit + 1) && obits[i]));
            assert(pmm.bits() =~= obits.update(tbit, false));
            assert(crate::bitmap::all_set(obits, tbit, 1));
            assert(obits[tbit]);
            crate::bitmap::lemma_count_free_update(obits, tbit, false);
        }
        self.directory.set(pde_i, PageDirectoryEntry::default());
        proof {
            assert forall|p2: int|
                0 <= p2 < 0x10_0000 && p2 != vp implies self.mapping_4k(p2) == old(
                self,
            ).mapping_4k(p2) by {
                lemma_vpage_split(p2);
                let d2 = p2 / 1024;
                let t2 = p2 % 1024;
                if d2 == d {
                    assert(t2 != t);
                    assert(!spec_pte_from_u32(old(self).table_words(d)[t2]).present);
                }
            }
        }
        Ok(())
    }

    /// The initialization sequence: requires the 4 MiB-page CPU feature (a
    /// fault if absent), enables the page-size extension, identity-maps the
    /// first 4 MiB as one writable large page, and — after the caller has
    /// loaded the directory base and fixed up any early-console mapping —
    /// turns paging on.
    pub fn init(&mut self, pse_supported: bool) -> (r: Result<(), Fault>)
        requires
            old(self).wf(),
        ensures
            final(self).wf(),
            ({
                let pde0 = old(self).pde_at(0);
                &&& (r == Err::<(), Fault>(Fault::FeatureAbsent) <==> !pse_supported)
                &&& (r == Err::<(), Fault>(Fault::FeatureAbsent) ==> *final(self) == *old(self))
                &&& (r == Err::<(), Fault>(Fault::DoubleMapLarge) <==> pse_supported
                    && pde0.present)
                &&& (r is Ok <==> pse_supported && !pde0.present)
                &&& (r is Ok ==> {
                    &&& final(self).pse_on()
                    &&& final(self).paging_on()
                    &&& final(self).large_at(0) == Some(
                        spec_new_large_pde(0, false, true, false, false),
                    )
                    &&& (forall|d2: int|
                        1 <= d2 < 1024 ==> final(self).large_at(d2) == old(self).large_at(d2))
                    &&& (forall|p2: int|
                        0 <= p2 < 0x10_0000 ==> final(self).mapping_4k(p2) == old(self).mapping_4k(
                            p2,
                        ))
                })
            }),
    {
        if !pse_supported {
            return Err(Fault::FeatureAbsent);
        }
        self.pse_enabled = true;
        proof {
            lemma_vaddr_indices(0u32);
            assert(spec_pde_index(0u32) == 0);
        }
        let ghost pre = *self;
        match self.map4mb(0, 0, false, true, false, false) {
            Err(f) => {
                return Err(f);
            },
            Ok(()) => {},
        }
        let ghost post_map = *self;
        // Here the kernel loads the directory base into the paging control
        // register and re-establishes any early framebuffer mapping before
        // translation becomes active.
        self.paging_enabled = true;
        proof {
            assert(self.dir_words() == post_map.dir_words());
            assert forall|d2: int| 1 <= d2 < 1024 implies self.large_at(d2) == old(self).large_at(
                d2,
            ) by {
                assert(post_map.large_at(d2) == pre.large_at(d2));
                assert(self.large_at(d2) == post_map.large_at(d2));
                assert(pre.large_at(d2) == old(self).large_at(d2));
            }
            assert forall|p2: int|
                0 <= p2 < 0x10_0000 implies self.mapping_4k(p2) == old(self).mapping_4k(p2) by {
                assert(post_map.mapping_4k(p2) == pre.mapping_4k(p2));
                assert(self.mapping_4k(p2) == post_map.mapping_4k(p2));
                assert(pre.mapping_4k(p2) == old(self).mapping_4k(p2));
            }
            assert(self.large_at(0) == post_map.large_at(0));
        }
        Ok(())
    }
}

} // verus!

verus! {

/// Mapping a mapped address is fatal: on any state whose 4 KiB mapping for
/// `virt` is present — as it is right after a successful [`Vmm::map`] of
/// `virt` — the conditions hold under which [`Vmm::map`]'s contract answers
/// `Err(Fault::DoubleMap)` and changes nothing. Two `map` calls on one
/// virtual address without an intervening `unmap` therefore always fault.
pub proof fn lemma_double_map_fatal(v: Vmm, virt: u32)
    requires
        v.mapping_4k(spec_vpage(virt)) is Some,
    ensures
        v.pde_at(spec_pde_index(virt)).present,
        !v.pde_at(spec_pde_index(virt)).page_size,
        v.pte_at(spec_pde_index(virt), spec_pte_index(virt)).present,
{
    lemma_vaddr_indices(virt);
    vstd::arithmetic::div_mod::lemma_fundamental_div_mod_converse(
        spec_vpage(virt),
        1024,
        spec_pde_index(virt),
        spec_pte_index(virt),
    );
}

/// Remapping after an unmap succeeds: on any state whose 4 KiB mapping for
/// `virt` is absent and whose directory slot holds no large page — as
/// [`Vmm::unmap`]'s contract leaves it — neither double-map condition of
/// [`Vmm::map`] holds, so by `map`'s contract a new mapping of `virt` can
/// only succeed or report physical-memory exhaustion, and on success the
/// read-back is exactly the new entry.
pub proof fn lemma_remap_after_unmap(v: Vmm, virt: u32)
    requires
        v.mapping_4k(spec_vpage(virt)) is None,
        v.large_at(spec_pde_index(virt)) is None,
    ensures
        !(v.pde_at(spec_pde_index(virt)).present && v.pde_at(spec_pde_index(virt)).page_size),
        !(v.pde_at(spec_pde_index(virt)).present && !v.pde_at(spec_pde_index(virt)).page_size
            && v.pte_at(spec_pde_index(virt), spec_pte_index(virt)).present),
{
    lemma_vaddr_indices(virt);
    vstd::arithmetic::div_mod::lemma_fundamental_div_mod_converse(
        spec_vpage(virt),
        1024,
        spec_pde_index(virt),
        spec_pte_index(virt),
    );
}

} // verus!
