//! Tests for the boot-information tag reader.

use caelyx::multiboot2::{
    BootInfoError, MultibootMmapEntryType, MultibootTag, TagIterator, _MultibootMmapPart,
};

/// One tag: 2-byte type, 2 reserved bytes, 4-byte size (header included),
/// then the payload.
fn tag(ty: u16, payload: &[u8]) -> Vec<u8> {
    let size = (8 + payload.len()) as u32;
    let mut out = Vec::new();
    out.extend_from_slice(&ty.to_le_bytes());
    out.extend_from_slice(&[0, 0]);
    out.extend_from_slice(&size.to_le_bytes());
    out.extend_from_slice(payload);
    out
}

/// A whole blob: the 8-byte header (total size first), the given tags at
/// 8-byte boundaries, and an end tag.
fn blob(tags: &[Vec<u8>]) -> Vec<u8> {
    let mut out = vec![0u8; 8];
    for t in tags {
        out.extend_from_slice(t);
        while out.len() % 8 != 0 {
            out.push(0);
        }
    }
    out.extend_from_slice(&tag(0, &[]));
    let total = (out.len() as u32).to_le_bytes();
    out[..4].copy_from_slice(&total);
    out
}

/// A memory-map tag payload: 8 ignored bytes, then 24-byte records.
fn mmap_tag(entries: &[(u64, u64, u32)]) -> Vec<u8> {
    let mut payload = vec![0u8; 8];
    for &(addr, len, ty) in entries {
        payload.extend_from_slice(&addr.to_le_bytes());
        payload.extend_from_slice(&len.to_le_bytes());
        payload.extend_from_slice(&ty.to_le_bytes());
        payload.extend_from_slice(&[0, 0, 0, 0]);
    }
    tag(6, &payload)
}

fn collect(it: &mut TagIterator) -> Vec<MultibootTag> {
    let mut tags = Vec::new();
    while let Some(t) = it.next() {
        tags.push(t);
    }
    tags
}

#[test]
fn iterates_known_tags_and_skips_unknown() {
    let b = blob(&[
        tag(1, b"hello\0"),
        tag(99, &[1, 2, 3, 4]),
        mmap_tag(&[(0x1000, 0x2000, 1)]),
        tag(21, &[0, 0, 0, 0]),
    ]);
    let mut it = TagIterator::new(b).expect("valid blob");
    let tags = collect(&mut it);
    assert_eq!(tags.len(), 3);
    assert!(matches!(tags[0], MultibootTag::CmdLine));
    assert!(matches!(tags[1], MultibootTag::Mmap(_)));
    assert!(matches!(tags[2], MultibootTag::LoadBaseAddr));
}

#[test]
fn restart_idempotence() {
    let b = blob(&[
        tag(2, b"loader\0\0"),
        mmap_tag(&[(0, 0x100000, 1), (0x100000, 0x1000, 2)]),
        tag(7, &[0; 16]),
    ]);
    let mut it = TagIterator::new(b).expect("valid blob");
    let first_pass = collect(&mut it);
    assert!(it.next().is_none());
    it.reset();
    let second_pass = collect(&mut it);
    assert_eq!(first_pass, second_pass);
}

#[test]
fn mmap_records_parse_exactly() {
    let b = blob(&[mmap_tag(&[
        (0x0000_0000, 0x0010_0000, 1),
        (0xFFFF_0000_0000_0000, 0x1000, 2),
        (0x9F000, 0x1000, 7),
    ])]);
    let mut it = TagIterator::new(b).expect("valid blob");
    let tags = collect(&mut it);
    assert_eq!(tags.len(), 1);
    let parts = match &tags[0] {
        MultibootTag::Mmap(parts) => parts.clone(),
        other => panic!("expected a memory-map tag, got {other:?}"),
    };
    assert_eq!(
        parts,
        vec![
            _MultibootMmapPart { addr: 0, len: 0x0010_0000, type_: 1 },
            _MultibootMmapPart { addr: 0xFFFF_0000_0000_0000, len: 0x1000, type_: 2 },
            _MultibootMmapPart { addr: 0x9F000, len: 0x1000, type_: 7 },
        ]
    );
    let entry = parts[0].as_mmap_entry();
    assert_eq!(entry.start, 0);
    assert_eq!(entry.size, 0x0010_0000);
    assert_eq!(entry.type_, MultibootMmapEntryType::Available);
    assert_eq!(parts[2].as_mmap_entry().type_, MultibootMmapEntryType::Unknown);
}

#[test]
fn framebuffer_tag_parses_exactly() {
    let mut payload = Vec::new();
    payload.extend_from_slice(&0xFD00_0000u64.to_le_bytes());
    payload.extend_from_slice(&4096u32.to_le_bytes());
    payload.extend_from_slice(&1024u32.to_le_bytes());
    payload.extend_from_slice(&768u32.to_le_bytes());
    payload.push(32); // bits per pixel
    payload.push(1); // direct RGB
    payload.extend_from_slice(&[0, 0]);
    payload.extend_from_slice(&[16, 8, 8, 8, 0, 8]); // shift/size per channel
    let b = blob(&[tag(8, &payload)]);
    let mut it = TagIterator::new(b).expect("valid blob");
    let tags = collect(&mut it);
    assert_eq!(tags.len(), 1);
    let fb = match &tags[0] {
        MultibootTag::FrameBuffer(fb) => *fb,
        other => panic!("expected a framebuffer tag, got {other:?}"),
    };
    assert_eq!(fb.addr, 0xFD00_0000);
    assert_eq!(fb.pitch, 4096);
    assert_eq!(fb.width, 1024);
    assert_eq!(fb.height, 768);
    assert_eq!(fb.red_mask_shift, 16);
    assert_eq!(fb.red_mask_size, 8);
    assert_eq!(fb.green_mask_shift, 8);
    assert_eq!(fb.green_mask_size, 8);
    assert_eq!(fb.blue_mask_shift, 0);
    assert_eq!(fb.blue_mask_size, 8);
}

#[test]
fn framebuffer_with_other_depth_is_skipped() {
    let mut payload = vec![0u8; 30];
    payload[20] = 24; // bits per pixel at payload offset 20 (tag offset 28)
    let b = blob(&[tag(8, &payload), tag(4, &[0; 8])]);
    let mut it = TagIterator::new(b).expect("valid blob");
    let tags = collect(&mut it);
    assert_eq!(tags.len(), 1);
    assert!(matches!(tags[0], MultibootTag::BasicMemInfo));
}

#[test]
fn short_blob_is_rejected() {
    assert_eq!(TagIterator::new(vec![1, 2, 3]).err(), Some(BootInfoError::TooShort));
    // Declared total larger than the buffer.
    let mut b = blob(&[tag(1, b"x\0\0\0")]);
    let total = (b.len() as u32 + 8).to_le_bytes();
    b[..4].copy_from_slice(&total);
    assert_eq!(TagIterator::new(b).err(), Some(BootInfoError::TooShort));
}

#[test]
fn overrunning_tag_is_rejected() {
    // A tag whose declared size runs past the declared total.
    let mut b = vec![0u8; 8];
    b.extend_from_slice(&tag(1, &[0; 64]));
    let total = (16u32).to_le_bytes();
    b[..4].copy_from_slice(&total);
    assert_eq!(TagIterator::new(b).err(), Some(BootInfoError::TagOverrun));
}

#[test]
fn missing_end_tag_is_rejected() {
    // Tags that fill the declared total without an end tag.
    let mut b = vec![0u8; 8];
    b.extend_from_slice(&tag(1, &[0; 8]));
    let total = (b.len() as u32).to_le_bytes();
    b[..4].copy_from_slice(&total);
    assert_eq!(TagIterator::new(b).err(), Some(BootInfoError::TagOverrun));
}

#[test]
fn mmap_entry_type_codes_decode() {
    assert_eq!(MultibootMmapEntryType::from_u32(1), MultibootMmapEntryType::Available);
    assert_eq!(MultibootMmapEntryType::from_u32(2), MultibootMmapEntryType::Reserved);
    assert_eq!(MultibootMmapEntryType::from_u32(3), MultibootMmapEntryType::AcpiReclaim);
    assert_eq!(MultibootMmapEntryType::from_u32(4), MultibootMmapEntryType::Nvs);
    assert_eq!(MultibootMmapEntryType::from_u32(5), MultibootMmapEntryType::Badram);
    assert_eq!(MultibootMmapEntryType::from_u32(0), MultibootMmapEntryType::Unknown);
    assert_eq!(MultibootMmapEntryType::from_u32(77), MultibootMmapEntryType::Unknown);
}
