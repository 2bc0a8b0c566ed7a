//! The boot-information tag reader.
//!
//! The boot loader hands the kernel one blob: a fixed 8-byte header whose
//! first field is the blob's total size, followed by 8-byte-aligned,
//! self-describing tags. Each tag carries a 2-byte type code and a 4-byte
//! size (header included); the next tag starts at the next 8-byte boundary
//! past the declared size, and a tag of type 0 and size 8 ends the sequence.
//!
//! The reader walks this blob as a bounds-checked cursor. Construction
//! validates the whole structure once, so that iteration never reads out of
//! bounds; a truncated or corrupt blob is a recoverable [`BootInfoError`],
//! not undefined behaviour. Tags with an unknown type code, and known tags
//! whose payload does not fit its declared size, are skipped, not errors.
//! The cursor can be reset to re-scan from the first tag.

use vstd::prelude::*;

use crate::align::{lemma_align_up, spec_align_up};

verus! {

/// The blob is smaller than its fixed header, or declares a total size that
/// does not fit inside it.
#[derive(Clone, Copy, Debug, PartialEq, Eq, Structural)]
pub enum BootInfoError {
    /// No room for the header, or the declared total size is impossible.
    TooShort,
    /// A tag's declared size runs past the declared total, or the walk ends
    /// without an end tag.
    TagOverrun,
}

/// One raw memory-map record as it lies in the blob: 8-byte start, 8-byte
/// length, 4-byte type code (4 reserved bytes follow in the blob).
#[derive(Clone, Copy, Debug, PartialEq, Eq, Structural)]
pub struct _MultibootMmapPart {
    pub addr: u64,
    pub len: u64,
    pub type_: u32,
}

/// A typed memory-map record.
#[derive(Clone, Copy, Debug, PartialEq, Eq, Structural)]
pub struct MultibootMmapEntry {
    pub start: u64,
    pub size: u64,
    pub type_: MultibootMmapEntryType,
}

/// What a memory-map record says about its range.
#[derive(Clone, Copy, Debug, PartialEq, Eq, Structural)]
pub enum MultibootMmapEntryType {
    Available,
    Reserved,
    AcpiReclaim,
    Nvs,
    Badram,
    Unknown,
}

/// The framebuffer descriptor carried by the framebuffer tag, for a 32-bit
/// RGB mode.
#[derive(Clone, Copy, Debug, Hash, PartialEq, Eq, Structural)]
pub struct MultibootFramebuffer {
    pub addr: u32,
    pub width: u32,
    pub height: u32,
    pub pitch: u32,
    pub red_mask_size: u8,
    pub red_mask_shift: u8,
    pub green_mask_size: u8,
    pub green_mask_shift: u8,
    pub blue_mask_size: u8,
    pub blue_mask_shift: u8,
}

/// One typed boot-information tag. Payloads the memory core does not consume
/// are represented by their bare kind.
#[derive(Debug, PartialEq)]
pub enum MultibootTag {
    End,
    CmdLine,
    BootLoaderName,
    Module,
    BasicMemInfo,
    BootDev,
    Mmap(Vec<_MultibootMmapPart>),
    Vbe,
    FrameBuffer(MultibootFramebuffer),
    ElfSections,
    Apm,
    Efi32,
    Efi64,
    SmBios,
    AcpiOld,
    AcpiNew,
    Network,
    EfiMMap,
    EfiBs,
    Efi32Ih,
    Efi64Ih,
    LoadBaseAddr,
}

/// The mathematical shape of a tag: as [`MultibootTag`], with the memory map
/// as a sequence.
pub enum TagView {
    End,
    CmdLine,
    BootLoaderName,
    Module,
    BasicMemInfo,
    BootDev,
    Mmap(Seq<_MultibootMmapPart>),
    Vbe,
    FrameBuffer(MultibootFramebuffer),
    ElfSections,
    Apm,
    Efi32,
    Efi64,
    SmBios,
    AcpiOld,
    AcpiNew,
    Network,
    EfiMMap,
    EfiBs,
    Efi32Ih,
    Efi64Ih,
    LoadBaseAddr,
}

impl View for MultibootTag {
    type V = TagView;

    open spec fn view(&self) -> TagView {
        match self {
            MultibootTag::End => TagView::End,
            MultibootTag::CmdLine => TagView::CmdLine,
            MultibootTag::BootLoaderName => TagView::BootLoaderName,
            MultibootTag::Module => TagView::Module,
            MultibootTag::BasicMemInfo => TagView::BasicMemInfo,
            MultibootTag::BootDev => TagView::BootDev,
            MultibootTag::Mmap(v) => TagView::Mmap(v@),
            MultibootTag::Vbe => TagView::Vbe,
            MultibootTag::FrameBuffer(fb) => TagView::FrameBuffer(*fb),
            MultibootTag::ElfSections => TagView::ElfSections,
            MultibootTag::Apm => TagView::Apm,
            MultibootTag::Efi32 => TagView::Efi32,
            MultibootTag::Efi64 => TagView::Efi64,
            MultibootTag::SmBios => TagView::SmBios,
            MultibootTag::AcpiOld => TagView::AcpiOld,
            MultibootTag::AcpiNew => TagView::AcpiNew,
            MultibootTag::Network => TagView::Network,
            MultibootTag::EfiMMap => TagView::EfiMMap,
            MultibootTag::EfiBs => TagView::EfiBs,
            MultibootTag::Efi32Ih => TagView::Efi32Ih,
            MultibootTag::Efi64Ih => TagView::Efi64Ih,
            MultibootTag::LoadBaseAddr => TagView::LoadBaseAddr,
        }
    }
}

impl MultibootMmapEntryType {
    /// The meaning of a raw memory-map type code.
    pub open spec fn spec_from_u32(v: u32) -> MultibootMmapEntryType {
        if v == 1 {
            MultibootMmapEntryType::Available
        } else if v == 2 {
            MultibootMmapEntryType::Reserved
        } else if v == 3 {
            MultibootMmapEntryType::AcpiReclaim
        } else if v == 4 {
            MultibootMmapEntryType::Nvs
        } else if v == 5 {
            MultibootMmapEntryType::Badram
        } else {
            MultibootMmapEntryType::Unknown
        }
    }

    /// Decodes a raw memory-map type code.
    pub fn from_u32(v: u32) -> (r: Self)
        ensures
            r == Self::spec_from_u32(v),
    {
        match v {
            1 => Self::Available,
            2 => Self::Reserved,
            3 => Self::AcpiReclaim,
            4 => Self::Nvs,
            5 => Self::Badram,
            _ => Self::Unknown,
        }
    }
}

impl _MultibootMmapPart {
    /// The typed record a raw record denotes.
    pub open spec fn spec_as_mmap_entry(self) -> MultibootMmapEntry {
        MultibootMmapEntry {
            start: self.addr,
            size: self.len,
            type_: MultibootMmapEntryType::spec_from_u32(self.type_),
        }
    }

    /// Types a raw memory-map record.
    pub fn as_mmap_entry(&self) -> (r: MultibootMmapEntry)
        ensures
            r == self.spec_as_mmap_entry(),
    {
        MultibootMmapEntry {
            start: self.addr,
            size: self.len,
            type_: MultibootMmapEntryType::from_u32(self.type_),
        }
    }
}

/// The little-endian 16-bit value at `off`.
pub open spec fn spec_u16_le(s: Seq<u8>, off: int) -> int {
    s[off] + 0x100 * s[off + 1]
}

/// The little-endian 32-bit value at `off`.
pub open spec fn spec_u32_le(s: Seq<u8>, off: int) -> int {
    s[off] + 0x100 * s[off + 1] + 0x1_0000 * s[off + 2] + 0x100_0000 * s[off + 3]
}

/// The little-endian 64-bit value at `off`.
pub open spec fn spec_u64_le(s: Seq<u8>, off: int) -> int {
    spec_u32_le(s, off) + 0x1_0000_0000 * spec_u32_le(s, off + 4)
}

fn read_u16(b: &Vec<u8>, off: usize) -> (r: u16)
    requires
        off + 2 <= b.len(),
    ensures
        r == spec_u16_le(b@, off as int),
{
    b[off] as u16 + 0x100 * (b[off + 1] as u16)
}

fn read_u32(b: &Vec<u8>, off: usize) -> (r: u32)
    requires
        off + 4 <= b.len(),
    ensures
        r == spec_u32_le(b@, off as int),
{
    let b3 = b[off + 3];
    b[off] as u32 + 0x100 * (b[off + 1] as u32) + 0x1_0000 * (b[off + 2] as u32) + 0x100_0000 * (
    b3 as u32)
}

fn read_u64(b: &Vec<u8>, off: usize) -> (r: u64)
    requires
        off + 8 <= b.len(),
    ensures
        r == spec_u64_le(b@, off as int),
{
    let lo = read_u32(b, off);
    let hi = read_u32(b, off + 4);
    lo as u64 + 0x1_0000_0000 * (hi as u64)
}

/// The raw memory-map record at `off`.
pub open spec fn spec_mmap_part(s: Seq<u8>, off: int) -> _MultibootMmapPart {
    _MultibootMmapPart {
        addr: spec_u64_le(s, off) as u64,
        len: spec_u64_le(s, off + 8) as u64,
        type_: spec_u32_le(s, off + 16) as u32,
    }
}

/// The `n` raw memory-map records starting at `off`, 24 bytes apart.
pub open spec fn spec_mmap_parts(s: Seq<u8>, off: int, n: int) -> Seq<_MultibootMmapPart> {
    Seq::new(n as nat, |i: int| spec_mmap_part(s, off + 24 * i))
}

/// The framebuffer descriptor of the framebuffer tag at `o` (the physical
/// address is read as its low 32 bits: this design reaches nothing above
/// 4 GiB).
pub open spec fn spec_framebuffer(s: Seq<u8>, o: int) -> MultibootFramebuffer {
    MultibootFramebuffer {
        addr: spec_u32_le(s, o + 8) as u32,
        pitch: spec_u32_le(s, o + 16) as u32,
        width: spec_u32_le(s, o + 20) as u32,
        height: spec_u32_le(s, o + 24) as u32,
        red_mask_shift: s[o + 32],
        red_mask_size: s[o + 33],
        green_mask_shift: s[o + 34],
        green_mask_size: s[o + 35],
        blue_mask_shift: s[o + 36],
        blue_mask_size: s[o + 37],
    }
}

/// What the tag at offset `o` denotes: `None` for an unknown type code or a
/// known tag whose payload does not fit its declared size (both are skipped).
pub open spec fn spec_parse_tag(s: Seq<u8>, o: int) -> Option<TagView> {
    let ty = spec_u16_le(s, o);
    let sz = spec_u32_le(s, o + 4);
    if ty == 0 {
        Some(TagView::End)
    } else if ty == 1 {
        Some(TagView::CmdLine)
    } else if ty == 2 {
        Some(TagView::BootLoaderName)
    } else if ty == 3 {
        Some(TagView::Module)
    } else if ty == 4 {
        Some(TagView::BasicMemInfo)
    } else if ty == 5 {
        Some(TagView::BootDev)
    } else if ty == 6 {
        if sz >= 16 && (sz - 16) % 24 == 0 {
            Some(TagView::Mmap(spec_mmap_parts(s, o + 16, (sz - 16) / 24)))
        } else {
            None
        }
    } else if ty == 7 {
        Some(TagView::Vbe)
    } else if ty == 8 {
        if sz >= 38 && s[o + 28] == 32 {
            Some(TagView::FrameBuffer(spec_framebuffer(s, o)))
        } else {
            None
        }
    } else if ty == 9 {
        Some(TagView::ElfSections)
    } else if ty == 10 {
        Some(TagView::Apm)
    } else if ty == 11 {
        Some(TagView::Efi32)
    } else if ty == 12 {
        Some(TagView::Efi64)
    } else if ty == 13 {
        Some(TagView::SmBios)
    } else if ty == 14 {
        Some(TagView::AcpiOld)
    } else if ty == 15 {
        Some(TagView::AcpiNew)
    } else if ty == 16 {
        Some(TagView::Network)
    } else if ty == 17 {
        Some(TagView::EfiMMap)
    } else if ty == 18 {
        Some(TagView::EfiBs)
    } else if ty == 19 {
        Some(TagView::Efi32Ih)
    } else if ty == 20 {
        Some(TagView::Efi64Ih)
    } else if ty == 21 {
        Some(TagView::LoadBaseAddr)
    } else {
        None
    }
}

/// The offset of the tag after the one at `o`: past its declared size, at
/// the next 8-byte boundary.
pub open spec fn spec_next_off(s: Seq<u8>, o: int) -> int {
    spec_align_up(o + spec_u32_le(s, o + 4), 8)
}

/// The tag structure is intact from offset `o` to the declared total `t`:
/// every tag header lies inside the blob, every declared size stays inside
/// it, and an end tag (type 0, size 8) is reached.
pub open spec fn valid_from(s: Seq<u8>, o: int, t: int) -> bool
    decreases t - o via valid_from_decreases
{
    if o < 0 || o + 8 > t {
        false
    } else if spec_u16_le(s, o) == 0 {
        spec_u32_le(s, o + 4) == 8
    } else {
        let sz = spec_u32_le(s, o + 4);
        let nxt = spec_next_off(s, o);
        sz >= 8 && o + sz <= t && nxt <= t && valid_from(s, nxt, t)
    }
}

#[via_fn]
proof fn valid_from_decreases(s: Seq<u8>, o: int, t: int) {
    if !(o < 0 || o + 8 > t) && spec_u16_le(s, o) != 0 {
        lemma_align_up(o + spec_u32_le(s, o + 4), 8);
    }
}

/// The sequence of tags yielded from offset `o` on: the end tag terminates
/// it (and is not yielded); unknown or malformed tags are skipped.
pub open spec fn tags_from(s: Seq<u8>, o: int, t: int) -> Seq<TagView>
    decreases t - o via tags_from_decreases
{
    if o < 0 || o + 8 > t {
        Seq::empty()
    } else if spec_u16_le(s, o) == 0 {
        Seq::empty()
    } else {
        let sz = spec_u32_le(s, o + 4);
        let nxt = spec_next_off(s, o);
        if sz >= 8 && o + sz <= t && nxt <= t {
            match spec_parse_tag(s, o) {
                Some(v) => seq![v] + tags_from(s, nxt, t),
                None => tags_from(s, nxt, t),
            }
        } else {
            Seq::empty()
        }
    }
}

#[via_fn]
proof fn tags_from_decreases(s: Seq<u8>, o: int, t: int) {
    if !(o < 0 || o + 8 > t) && spec_u16_le(s, o) != 0 {
        lemma_align_up(o + spec_u32_le(s, o + 4), 8);
    }
}

/// The payload of the first memory-map tag, if any tag of the sequence is
/// one.
pub open spec fn first_mmap(tags: Seq<TagView>) -> Option<Seq<_MultibootMmapPart>>
    decreases tags.len(),
{
    if tags.len() == 0 {
        None
    } else {
        match tags[0] {
            TagView::Mmap(parts) => Some(parts),
            _ => first_mmap(tags.drop_first()),
        }
    }
}

/// A whole blob is well-formed: it holds its 8-byte header, its declared
/// total size fits inside it, and the tag structure is intact from the first
/// tag at offset 8.
pub open spec fn blob_valid(s: Seq<u8>) -> bool {
    &&& s.len() >= 8
    &&& s.len() <= 0xFFFF_FFF0
    &&& 8 <= spec_u32_le(s, 0) <= s.len()
    &&& valid_from(s, 8, spec_u32_le(s, 0))
}

/// A restartable cursor over the tags of a validated boot-information blob.
pub struct TagIterator {
    blob: Vec<u8>,
    total: usize,
    cursor: usize,
}

impl TagIterator {
    /// The blob the reader walks.
    pub closed spec fn blob_view(&self) -> Seq<u8> {
        self.blob@
    }

    /// The reader's current offset into the blob.
    pub closed spec fn cur(&self) -> int {
        self.cursor as int
    }

    /// The blob was validated, and the cursor sits on an intact tag.
    pub closed spec fn wf(&self) -> bool {
        &&& blob_valid(self.blob@)
        &&& self.total == spec_u32_le(self.blob@, 0)
        &&& valid_from(self.blob@, self.cursor as int, self.total as int)
    }

    /// The cursor sits on the first tag.
    pub closed spec fn at_start(&self) -> bool {
        self.cursor == 8
    }

    /// The tags still ahead of the cursor.
    pub closed spec fn tag_seq(&self) -> Seq<TagView> {
        tags_from(self.blob@, self.cursor as int, self.total as int)
    }

    /// All tags of the blob, from the first on.
    pub closed spec fn full_tag_seq(&self) -> Seq<TagView> {
        tags_from(self.blob@, 8, spec_u32_le(self.blob@, 0))
    }

    /// Validates the blob's tag structure once and places the cursor on the
    /// first tag. A blob whose structure is broken is rejected, never read
    /// out of bounds.
    pub fn new(blob: Vec<u8>) -> (r: Result<TagIterator, BootInfoError>)
        ensures
            match r {
                Ok(it) => {
                    &&& blob_valid(blob@)
                    &&& it.wf()
                    &&& it.at_start()
                    &&& it.blob_view() == blob@
                },
                Err(e) => {
                    &&& !blob_valid(blob@)
                    &&& (e == BootInfoError::TooShort <==> !(blob@.len() >= 8 && blob@.len()
                        <= 0xFFFF_FFF0 && 8 <= spec_u32_le(blob@, 0) <= blob@.len()))
                },
            },
    {
        let ghost s = blob@;
        if blob.len() < 8 {
            return Err(BootInfoError::TooShort);
        }
        if blob.len() > 0xFFFF_FFF0 {
            return Err(BootInfoError::TooShort);
        }
        let total32 = read_u32(&blob, 0);
        let total = total32 as usize;
        if total < 8 || total > blob.len() {
            return Err(BootInfoError::TooShort);
        }
        let mut o: usize = 8;
        loop
            invariant
                s == blob@,
                blob@.len() >= 8,
                blob@.len() <= 0xFFFF_FFF0,
                total == spec_u32_le(s, 0),
                8 <= total <= blob.len(),
                8 <= o <= total,
                valid_from(s, 8, total as int) <==> valid_from(s, o as int, total as int),
            decreases total - o,
        {
            if total - o < 8 {
                assert(!valid_from(s, o as int, total as int));
                return Err(BootInfoError::TagOverrun);
            }
            let ty = read_u16(&blob, o);
            let sz32 = read_u32(&blob, o + 4);
            let sz = sz32 as usize;
            if ty == 0 {
                if sz == 8 {
                    assert(valid_from(s, o as int, total as int));
                    return Ok(TagIterator { blob, total, cursor: 8 });
                } else {
                    assert(!valid_from(s, o as int, total as int));
                    return Err(BootInfoError::TagOverrun);
                }
            }
            if sz < 8 || sz > total - o {
                assert(!valid_from(s, o as int, total as int));
                return Err(BootInfoError::TagOverrun);
            }
            proof {
                crate::align::lemma_pow2_literals();
            }
            let nxt = crate::align::align_ptr_up(o + sz, 8);
            if nxt > total {
                assert(!valid_from(s, o as int, total as int));
                return Err(BootInfoError::TagOverrun);
            }
            proof {
                assert(nxt == spec_next_off(s, o as int));
                assert(valid_from(s, o as int, total as int) <==> valid_from(
                    s,
                    nxt as int,
                    total as int,
                ));
            }
            o = nxt;
        }
    }

    /// Moves the cursor back to the first tag; the next pass yields the same
    /// tags as a fresh reader.
    pub fn reset(&mut self)
        requires
            old(self).wf(),
        ensures
            final(self).wf(),
            final(self).at_start(),
            final(self).blob_view() == old(self).blob_view(),
            final(self).tag_seq() == old(self).full_tag_seq(),
    {
        self.cursor = 8;
    }

    /// Reads the tag under the cursor without advancing; `None` means the
    /// current tag is unknown or malformed (iteration skips it).
    pub fn get_tag(&self) -> (r: Option<MultibootTag>)
        requires
            self.wf(),
        ensures
            ({
                let p = spec_parse_tag(self.blob_view(), self.cur());
                match r {
                    Some(tag) => p == Some(tag@),
                    None => p is None,
                }
            }),
    {
        let c = self.cursor;
        assert(c + 8 <= self.total);
        assert(self.total <= self.blob.len());
        let ty = read_u16(&self.blob, c);
        let sz32 = read_u32(&self.blob, c + 4);
        let sz = sz32 as usize;
        proof {
            if ty != 0 {
                assert(sz >= 8 && c + sz <= self.total);
            }
        }
        match ty {
            0 => Some(MultibootTag::End),
            1 => Some(MultibootTag::CmdLine),
            2 => Some(MultibootTag::BootLoaderName),
            3 => Some(MultibootTag::Module),
            4 => Some(MultibootTag::BasicMemInfo),
            5 => Some(MultibootTag::BootDev),
            6 => {
                if sz < 16 || (sz - 16) % 24 != 0 {
                    return None;
                }
                let n = (sz - 16) / 24;
                let base = c + 16;
                proof {
                    vstd::arithmetic::div_mod::lemma_fundamental_div_mod(sz as int - 16, 24);
                    assert(sz as int - 16 == 24 * (n as int));
                    assert(self.total <= self.blob.len());
                    assert(base + 24 * n <= self.blob.len());
                }
                let mut v: Vec<_MultibootMmapPart> = Vec::new();
                let mut i: usize = 0;
                while i < n
                    invariant
                        i <= n,
                        base + 24 * n <= self.blob.len(),
                        v@ == spec_mmap_parts(self.blob@, base as int, n as int).take(i as int),
                    decreases n - i,
                {
                    let off = base + 24 * i;
                    let part = _MultibootMmapPart {
                        addr: read_u64(&self.blob, off),
                        len: read_u64(&self.blob, off + 8),
                        type_: read_u32(&self.blob, off + 16),
                    };
                    v.push(part);
                    proof {
                        assert(v@ =~= spec_mmap_parts(self.blob@, base as int, n as int).take(
                            i as int + 1,
                        ));
                    }
                    i = i + 1;
                }
                proof {
                    assert(v@ =~= spec_mmap_parts(self.blob@, base as int, n as int));
                }
                Some(MultibootTag::Mmap(v))
            },
            7 => Some(MultibootTag::Vbe),
            8 => {
                if sz < 38 {
                    return None;
                }
                let bpp = self.blob[c + 28];
                if bpp != 32 {
                    return None;
                }
                Some(
                    MultibootTag::FrameBuffer(
                        MultibootFramebuffer {
                            addr: read_u32(&self.blob, c + 8),
                            pitch: read_u32(&self.blob, c + 16),
                            width: read_u32(&self.blob, c + 20),
                            height: read_u32(&self.blob, c + 24),
                            red_mask_shift: self.blob[c + 32],
                            red_mask_size: self.blob[c + 33],
                            green_mask_shift: self.blob[c + 34],
                            green_mask_size: self.blob[c + 35],
                            blue_mask_shift: self.blob[c + 36],
                            blue_mask_size: self.blob[c + 37],
                        },
                    ),
                )
            },
            9 => Some(MultibootTag::ElfSections),
            10 => Some(MultibootTag::Apm),
            11 => Some(MultibootTag::Efi32),
            12 => Some(MultibootTag::Efi64),
            13 => Some(MultibootTag::SmBios),
            14 => Some(MultibootTag::AcpiOld),
            15 => Some(MultibootTag::AcpiNew),
            16 => Some(MultibootTag::Network),
            17 => Some(MultibootTag::EfiMMap),
            18 => Some(MultibootTag::EfiBs),
            19 => Some(MultibootTag::Efi32Ih),
            20 => Some(MultibootTag::Efi64Ih),
            21 => Some(MultibootTag::LoadBaseAddr),
            _ => None,
        }
    }

    /// Yields the next tag and moves past it, skipping unknown and malformed
    /// tags; `None` means the end tag was reached (the cursor stays on it,
    /// so the reader keeps yielding `None` until it is reset).
    pub fn next(&mut self) -> (r: Option<MultibootTag>)
        requires
            old(self).wf(),
        ensures
            final(self).wf(),
            final(self).blob_view() == old(self).blob_view(),
            final(self).full_tag_seq() == old(self).full_tag_seq(),
            match r {
                Some(tag) => {
                    &&& old(self).tag_seq().len() > 0
                    &&& tag@ == old(self).tag_seq()[0]
                    &&& final(self).tag_seq() == old(self).tag_seq().drop_first()
                },
                None => {
                    &&& old(self).tag_seq().len() == 0
                    &&& final(self).tag_seq().len() == 0
                },
            },
    {
        let ghost s = old(self).blob@;
        let ghost t = old(self).total as int;
        let ghost start_tags = old(self).tag_seq();
        loop
            invariant
                self.wf(),
                self.blob@ == s,
                self.total as int == t,
                self.tag_seq() == start_tags,
                s == old(self).blob_view(),
                t == old(self).total as int,
                start_tags == old(self).tag_seq(),
            decreases t - self.cursor,
        {
            let c = self.cursor;
            assert(c + 8 <= self.total);
            assert(self.total <= self.blob.len());
            let tag = self.get_tag();
            match tag {
                Some(MultibootTag::End) => {
                    assert(spec_u16_le(s, c as int) == 0);
                    return None;
                },
                Some(tag) => {
                    proof {
                        assert(!(tag is End));
                        assert(tag@ != TagView::End);
                        assert(spec_u16_le(s, c as int) != 0);
                        assert(valid_from(s, c as int, t));
                        assert(spec_u32_le(s, c as int + 4) >= 8 && c + spec_u32_le(s, c as int + 4)
                            <= t && spec_next_off(s, c as int) <= t);
                        crate::align::lemma_pow2_literals();
                    }
                    let sz32 = read_u32(&self.blob, c + 4);
                    let sz = sz32 as usize;
                    let nxt = crate::align::align_ptr_up(c + sz, 8);
                    proof {
                        assert(nxt == spec_next_off(s, c as int));
                        assert(tags_from(s, c as int, t) == seq![tag@] + tags_from(
                            s,
                            nxt as int,
                            t,
                        ));
                    }
                    self.cursor = nxt;
                    proof {
                        assert(self.tag_seq() =~= start_tags.drop_first());
                    }
                    return Some(tag);
                },
                None => {
                    proof {
                        assert(spec_u16_le(s, c as int) != 0);
                        assert(valid_from(s, c as int, t));
                        assert(spec_u32_le(s, c as int + 4) >= 8 && c + spec_u32_le(s, c as int + 4)
                            <= t && spec_next_off(s, c as int) <= t);
                        crate::align::lemma_pow2_literals();
                    }
                    let sz32 = read_u32(&self.blob, c + 4);
                    let sz = sz32 as usize;
                    let nxt = crate::align::align_ptr_up(c + sz, 8);
                    proof {
                        assert(nxt == spec_next_off(s, c as int));
                        assert(tags_from(s, c as int, t) == tags_from(s, nxt as int, t));
                    }
                    self.cursor = nxt;
                },
            }
        }
    }
}

/// Restart idempotence: the tags a reader yields are a function of its blob
/// alone, so after consuming the sequence to completion and resetting the
/// cursor, a second pass yields exactly the tags of the first pass.
pub proof fn lemma_restart_idempotence(it1: TagIterator, it2: TagIterator)
    requires
        it1.wf(),
        it2.wf(),
        it1.at_start(),
        it2.at_start(),
        it1.blob_view() == it2.blob_view(),
    ensures
        it1.tag_seq() == it2.tag_seq(),
{
}

} // verus!
