//! Tests for the paging core and the bump heap.

use caelyx::fault::Fault;
use caelyx::heap::Heap;
use caelyx::multiboot2::TagIterator;
use caelyx::pmm::PhysicalMemoryAllocator;
use caelyx::virt_page_alloc::VirtPageAllocator;
use caelyx::vmm::{PageDirectoryEntry, PageTableEntry, Vmm};

fn tag(ty: u16, payload: &[u8]) -> Vec<u8> {
    let size = (8 + payload.len()) as u32;
    let mut out = Vec::new();
    out.extend_from_slice(&ty.to_le_bytes());
    out.extend_from_slice(&[0, 0]);
    out.extend_from_slice(&size.to_le_bytes());
    out.extend_from_slice(payload);
    out
}

fn blob(tags: &[Vec<u8>]) -> Vec<u8> {
    let mut out = vec![0u8; 8];
    for t in tags {
        out.extend_from_slice(t);
        while out.len() % 8 != 0 {
            out.push(0);
        }
    }
    out.extend_from_slice(&tag(0, &[]));
    let total = (out.len() as u32).to_le_bytes();
    out[..4].copy_from_slice(&total);
    out
}

fn mmap_tag(entries: &[(u64, u64, u32)]) -> Vec<u8> {
    let mut payload = vec![0u8; 8];
    for &(addr, len, ty) in entries {
        payload.extend_from_slice(&addr.to_le_bytes());
        payload.extend_from_slice(&len.to_le_bytes());
        payload.extend_from_slice(&ty.to_le_bytes());
        payload.extend_from_slice(&[0, 0, 0, 0]);
    }
    tag(6, &payload)
}

/// A manager over 512 free pages at 4 MiB.
fn pmm_512_pages() -> PhysicalMemoryAllocator {
    let mut it = TagIterator::new(blob(&[mmap_tag(&[(0x40_0000, 0x20_0000, 1)])]))
        .expect("valid blob");
    PhysicalMemoryAllocator::new(&mut it, 0, 0).expect("memory map present")
}

#[test]
fn page_table_entry_packs_exactly() {
    let e = PageTableEntry {
        addr: 0x1234_5000,
        present: true,
        writable: true,
        user: false,
        write_through: false,
        cache_disable: false,
        accessed: false,
        dirty: false,
        page_attribute_table: false,
        global: false,
    };
    assert_eq!(e.to_u32(), 0x1234_5003);
    assert_eq!(PageTableEntry::from_u32(0x1234_5003), e);
    assert!(!PageTableEntry::from_u32(0).present);
}

#[test]
fn page_directory_entry_packs_exactly() {
    let large = PageDirectoryEntry {
        addr: 0x4000_0000,
        present: true,
        writable: true,
        user: false,
        write_through: false,
        cache_disable: false,
        accessed: false,
        page_size: true,
        global: false,
        page_attribute_table: false,
        dirty: false,
    };
    assert_eq!(large.to_u32(), 0x4000_0083);
    assert_eq!(PageDirectoryEntry::from_u32(0x4000_0083), large);
    let table = PageDirectoryEntry {
        addr: 0x0040_1000,
        present: true,
        writable: false,
        user: true,
        write_through: false,
        cache_disable: true,
        accessed: false,
        page_size: false,
        global: false,
        page_attribute_table: false,
        dirty: false,
    };
    assert_eq!(table.to_u32(), 0x0040_1015);
    assert_eq!(PageDirectoryEntry::from_u32(0x0040_1015), table);
    assert!(!PageDirectoryEntry::from_u32(0).present);
}

#[test]
fn double_map_is_fatal_and_remap_after_unmap_reads_back() {
    let mut pmm = pmm_512_pages();
    let mut vmm = Vmm::create();
    let virt = 0xC010_3000u32;
    assert_eq!(vmm.map(&mut pmm, 0x0050_0000, virt, false, true, false, false), Ok(()));
    // Mapping the same address again without an unmap is the double-map
    // fault.
    assert_eq!(
        vmm.map(&mut pmm, 0x0060_0000, virt, false, true, false, false),
        Err(Fault::DoubleMap)
    );
    let first = vmm.table_entry(virt);
    assert!(first.present);
    assert_eq!(first.addr, 0x0050_0000);
    assert!(first.writable && !first.user && !first.cache_disable && !first.write_through);
    // Unmap, then map again with a different frame and different bits: the
    // read-back matches the second mapping.
    assert_eq!(vmm.unmap(&mut pmm, virt), Ok(()));
    assert_eq!(vmm.map(&mut pmm, 0x0060_0000, virt, true, false, true, true), Ok(()));
    let second = vmm.table_entry(virt);
    assert!(second.present);
    assert_eq!(second.addr, 0x0060_0000);
    assert!(second.user && !second.writable && second.cache_disable && second.write_through);
}

#[test]
fn unmap_of_last_entry_returns_table_page() {
    let mut pmm = pmm_512_pages();
    let mut vmm = Vmm::create();
    let before = pmm.free_page_count();
    // The first mapping in a 4 MiB slot costs one table page.
    assert_eq!(vmm.map(&mut pmm, 0x0050_0000, 0xC000_0000, false, true, false, false), Ok(()));
    assert_eq!(pmm.free_page_count(), before - 1);
    assert_eq!(vmm.map(&mut pmm, 0x0050_1000, 0xC000_1000, false, true, false, false), Ok(()));
    assert_eq!(pmm.free_page_count(), before - 1);
    // Unmapping one of two entries keeps the table.
    assert_eq!(vmm.unmap(&mut pmm, 0xC000_1000), Ok(()));
    assert_eq!(pmm.free_page_count(), before - 1);
    // Unmapping the last entry frees the table's page back.
    assert_eq!(vmm.unmap(&mut pmm, 0xC000_0000), Ok(()));
    assert_eq!(pmm.free_page_count(), before);
}

#[test]
fn unmap_of_absent_entry_is_fatal() {
    let mut pmm = pmm_512_pages();
    let mut vmm = Vmm::create();
    assert_eq!(vmm.unmap(&mut pmm, 0xC000_0000), Err(Fault::UnmapAbsent));
    assert_eq!(vmm.map(&mut pmm, 0x0050_0000, 0xC000_0000, false, true, false, false), Ok(()));
    // Present table, absent entry.
    assert_eq!(vmm.unmap(&mut pmm, 0xC000_1000), Err(Fault::UnmapAbsent));
}

#[test]
fn large_pages_map_and_unmap_whole_slots() {
    let mut pmm = pmm_512_pages();
    let mut vmm = Vmm::create();
    assert_eq!(vmm.map4mb(0x0040_0000, 0x0040_0000, false, true, false, false), Ok(()));
    assert_eq!(
        vmm.map4mb(0x0080_0000, 0x0040_0000, false, true, false, false),
        Err(Fault::DoubleMapLarge)
    );
    // A 4 KiB mapping under a large page is a directory-level double map.
    assert_eq!(
        vmm.map(&mut pmm, 0x0050_0000, 0x0040_1000, false, true, false, false),
        Err(Fault::DoubleMapLarge)
    );
    let e = vmm.directory_entry(0x0040_0000);
    assert!(e.present && e.page_size && e.writable);
    assert_eq!(e.addr, 0x0040_0000);
    assert_eq!(vmm.unmap(&mut pmm, 0x0040_0000), Ok(()));
    assert!(!vmm.directory_entry(0x0040_0000).present);
}

#[test]
fn init_requires_large_page_support_and_identity_maps() {
    let mut vmm = Vmm::create();
    assert_eq!(vmm.init(false), Err(Fault::FeatureAbsent));
    assert_eq!(vmm.init(true), Ok(()));
    let e = vmm.directory_entry(0);
    assert!(e.present && e.page_size && e.writable && !e.user);
    assert_eq!(e.addr, 0);
    // A second initialization finds the identity slot taken.
    assert_eq!(vmm.init(true), Err(Fault::DoubleMapLarge));
}

#[test]
fn heap_addresses_increase_and_satisfy_alignment() {
    let mut pmm = pmm_512_pages();
    let mut vpa = VirtPageAllocator::new();
    let mut vmm = Vmm::create();
    let mut heap = Heap::new(&mut pmm, &mut vpa, &mut vmm).expect("resources available");
    let a1 = heap.allocate(10, 1).expect("space left");
    assert_eq!(a1, 0xC000_0000);
    let a2 = heap.allocate(3, 16).expect("space left");
    assert!(a2 >= a1 + 10);
    assert_eq!(a2 % 16, 0);
    let a3 = heap.allocate(4096, 4096).expect("space left");
    assert!(a3 >= a2 + 3);
    assert_eq!(a3 % 4096, 0);
    let a4 = heap.allocate(1, 1).expect("space left");
    assert!(a4 >= a3 + 4096);
    // dealloc reclaims nothing: the next address still grows.
    heap.dealloc(a1, 10);
    let a5 = heap.allocate(1, 1).expect("space left");
    assert!(a5 > a4);
}

#[test]
fn heap_exhaustion_is_fatal() {
    let mut pmm = pmm_512_pages();
    let mut vpa = VirtPageAllocator::new();
    let mut vmm = Vmm::create();
    let mut heap = Heap::new(&mut pmm, &mut vpa, &mut vmm).expect("resources available");
    let a = heap.allocate(256 * 4096, 4096).expect("the whole extent fits");
    assert_eq!(a, 0xC000_0000);
    assert_eq!(heap.allocate(1, 1), Err(Fault::HeapExhausted));
    assert_eq!(heap.allocate(0, 1).expect("empty allocation at the end"), 0xC010_0000);
}

#[test]
fn heap_construction_consumes_the_managers() {
    let mut pmm = pmm_512_pages();
    let mut vpa = VirtPageAllocator::new();
    let mut vmm = Vmm::create();
    let before = pmm.free_page_count();
    let _heap = Heap::new(&mut pmm, &mut vpa, &mut vmm).expect("resources available");
    // 256 heap pages and one page table (the heap spans one 4 MiB slot).
    assert_eq!(pmm.free_page_count(), before - 257);
    assert_eq!(vpa.allocate(1), Some(0xC010_0000));
}

#[test]
fn heap_needs_physical_and_virtual_pages() {
    // Too little physical memory.
    let mut it = TagIterator::new(blob(&[mmap_tag(&[(0x40_0000, 0x10_000, 1)])]))
        .expect("valid blob");
    let mut pmm = PhysicalMemoryAllocator::new(&mut it, 0, 0).expect("memory map present");
    let mut vpa = VirtPageAllocator::new();
    let mut vmm = Vmm::create();
    match Heap::new(&mut pmm, &mut vpa, &mut vmm) {
        Err(f) => assert_eq!(f, Fault::OutOfPhysicalMemory),
        Ok(_) => panic!("heap built without enough physical pages"),
    }
}

#[test]
fn module_level_heap_init() {
    let mut pmm = pmm_512_pages();
    let mut vpa = VirtPageAllocator::new();
    let mut vmm = Vmm::create();
    let mut heap = caelyx::heap::init(&mut pmm, &mut vpa, &mut vmm).expect("resources available");
    let a = heap.allocate(8, 8).expect("space left");
    assert_eq!(a % 8, 0);
}
