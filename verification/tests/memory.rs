//! Tests for the physical memory manager and the virtual page allocator.

use caelyx::fault::Fault;
use caelyx::multiboot2::TagIterator;
use caelyx::pmm::{PhysicalMemoryAllocator, PhysicalMemoryAllocatorNewError};
use caelyx::virt_page_alloc::VirtPageAllocator;

fn tag(ty: u16, payload: &[u8]) -> Vec<u8> {
    let size = (8 + payload.len()) as u32;
    let mut out = Vec::new();
    out.extend_from_slice(&ty.to_le_bytes());
    out.extend_from_slice(&[0, 0]);
    out.extend_from_slice(&size.to_le_bytes());
    out.extend_from_slice(payload);
    out
}

fn blob(tags: &[Vec<u8>]) -> Vec<u8> {
    let mut out = vec![0u8; 8];
    for t in tags {
        out.extend_from_slice(t);
        while out.len() % 8 != 0 {
            out.push(0);
        }
    }
    out.extend_from_slice(&tag(0, &[]));
    let total = (out.len() as u32).to_le_bytes();
    out[..4].copy_from_slice(&total);
    out
}

fn mmap_tag(entries: &[(u64, u64, u32)]) -> Vec<u8> {
    let mut payload = vec![0u8; 8];
    for &(addr, len, ty) in entries {
        payload.extend_from_slice(&addr.to_le_bytes());
        payload.extend_from_slice(&len.to_le_bytes());
        payload.extend_from_slice(&ty.to_le_bytes());
        payload.extend_from_slice(&[0, 0, 0, 0]);
    }
    tag(6, &payload)
}

/// A manager over the given memory map with the kernel at
/// `[kernel_start, kernel_end)`.
fn pmm_from(entries: &[(u64, u64, u32)], kernel_start: u32, kernel_end: u32) -> PhysicalMemoryAllocator {
    let mut it = TagIterator::new(blob(&[mmap_tag(entries)])).expect("valid blob");
    PhysicalMemoryAllocator::new(&mut it, kernel_start, kernel_end).expect("memory map present")
}

#[test]
fn region_selection_prefers_largest_after_kernel_clipping() {
    // Two available ranges; the kernel splits the first into two fragments
    // (16 and 224 pages), both smaller than the second range (3840 pages).
    let mut pmm = pmm_from(
        &[
            (0x0000_0000, 0x0010_0000, 1),
            (0x0010_0000, 0x0000_1000, 2),
            (0x0010_1000, 0x00F0_0000, 1),
        ],
        0x0001_0000,
        0x0002_0000,
    );
    assert_eq!(pmm.free_page_count(), 0xF00);
    assert_eq!(pmm.allocate(1), Some(0x0010_1000));
}

#[test]
fn allocate_and_free_restore_every_page() {
    let mut pmm = pmm_from(&[(0x40_0000, 0x10_0000, 1)], 0, 0);
    let total = pmm.free_page_count();
    assert_eq!(total, 256);
    let a = pmm.allocate(4).expect("pages available");
    assert_eq!(a % 4096, 0);
    assert_eq!(pmm.free_page_count(), total - 4);
    assert_eq!(pmm.free(a, 4), Ok(()));
    assert_eq!(pmm.free_page_count(), total);
}

#[test]
fn allocate_never_overlaps() {
    let mut pmm = pmm_from(&[(0x40_0000, 0x10_0000, 1)], 0, 0);
    let mut ranges: Vec<(u32, u32)> = Vec::new();
    for count in 1..=8u32 {
        let a = pmm.allocate(count as usize).expect("pages available");
        ranges.push((a, a + count * 4096));
    }
    for (i, &(s1, e1)) in ranges.iter().enumerate() {
        for &(s2, e2) in &ranges[i + 1..] {
            assert!(e1 <= s2 || e2 <= s1, "ranges overlap: {s1:#x}..{e1:#x} and {s2:#x}..{e2:#x}");
        }
    }
}

#[test]
fn free_faults_are_distinguished() {
    let mut pmm = pmm_from(&[(0x40_0000, 0x10_0000, 1)], 0, 0);
    let a = pmm.allocate(2).expect("pages available");
    // Misaligned.
    assert_eq!(pmm.free(a + 5, 1), Err(Fault::FreeMisaligned));
    // Outside the managed region.
    assert_eq!(pmm.free(0x10_0000, 1), Err(Fault::FreeOutOfRange));
    assert_eq!(pmm.free(0x50_0000 - 4096, 2), Err(Fault::FreeOutOfRange));
    // Not entirely allocated.
    assert_eq!(pmm.free(a, 3), Err(Fault::DoubleFree));
    assert_eq!(pmm.free(a, 2), Ok(()));
    assert_eq!(pmm.free(a, 2), Err(Fault::DoubleFree));
}

#[test]
fn allocate_with_no_run_returns_none() {
    let mut pmm = pmm_from(&[(0x40_0000, 0x4000, 1)], 0, 0);
    assert_eq!(pmm.free_page_count(), 4);
    assert_eq!(pmm.allocate(5), None);
    let a = pmm.allocate(4).expect("pages available");
    assert_eq!(a, 0x40_0000);
    assert_eq!(pmm.allocate(1), None);
    // Fragmentation: two single free pages do not make a run of two.
    assert_eq!(pmm.free(0x40_0000, 1), Ok(()));
    assert_eq!(pmm.free(0x40_2000, 1), Ok(()));
    assert_eq!(pmm.free_page_count(), 2);
    assert_eq!(pmm.allocate(2), None);
    assert_eq!(pmm.allocate(1), Some(0x40_0000));
}

#[test]
fn missing_memory_map_is_reported() {
    let mut it = TagIterator::new(blob(&[tag(1, b"cmd\0")])).expect("valid blob");
    let r = PhysicalMemoryAllocator::new(&mut it, 0, 0);
    assert!(matches!(r, Err(PhysicalMemoryAllocatorNewError::CouldNotFindMmap)));
}

#[test]
fn ranges_beyond_four_gib_are_clipped_or_skipped() {
    // A range past the 32-bit space is skipped; one crossing it is clipped.
    let mut pmm = pmm_from(
        &[(0x1_0000_0000, 0x10_0000, 1), (0xFFFF_0000, 0x2_0000, 1)],
        0,
        0,
    );
    // 0xFFFF_0000..0xFFFF_FFFF clipped: 15 whole pages.
    assert_eq!(pmm.free_page_count(), 15);
    assert_eq!(pmm.allocate(1), Some(0xFFFF_0000));
}

#[test]
fn virtual_allocator_hands_out_high_pages() {
    let mut vpa = VirtPageAllocator::new();
    let a = vpa.allocate(2).expect("region empty");
    assert_eq!(a, 0xC000_0000);
    let b = vpa.allocate(1).expect("region empty");
    assert_eq!(b, 0xC000_2000);
    assert_eq!(vpa.free(a, 2), Ok(()));
    let c = vpa.allocate(3).expect("first fit reuses the freed run");
    assert_eq!(c, 0xC000_3000);
    let d = vpa.allocate(2).expect("first fit reuses the freed run");
    assert_eq!(d, 0xC000_0000);
}

#[test]
fn virtual_free_faults_are_distinguished() {
    let mut vpa = VirtPageAllocator::new();
    let a = vpa.allocate(2).expect("region empty");
    assert_eq!(vpa.free(0x8000_0000, 1), Err(Fault::FreeOutOfRange));
    assert_eq!(vpa.free(a + 1, 1), Err(Fault::FreeMisaligned));
    assert_eq!(vpa.free(a + 2 * 4096, 1), Err(Fault::DoubleFree));
    assert_eq!(vpa.free(a, 2), Ok(()));
    assert_eq!(vpa.free(a, 1), Err(Fault::DoubleFree));
}

#[test]
fn module_level_virtual_allocator_functions() {
    let mut vpa = caelyx::virt_page_alloc::init();
    let a = caelyx::virt_page_alloc::allocate(&mut vpa, 1).expect("region empty");
    assert_eq!(a, 0xC000_0000);
    assert_eq!(caelyx::virt_page_alloc::free(&mut vpa, a, 1), Ok(()));
}

#[test]
fn module_level_pmm_init() {
    let mut it = TagIterator::new(blob(&[mmap_tag(&[(0x40_0000, 0x10_0000, 1)])]))
        .expect("valid blob");
    let mut pmm = caelyx::pmm::init(&mut it, 0, 0).expect("memory map present");
    assert_eq!(pmm.free_page_count(), 256);
}
