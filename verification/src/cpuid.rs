//! Decoding of CPU-identification results.
//!
//! The `cpuid` instruction itself is executed by the boot glue; what stands
//! here is the logic over its results: reading the vendor string out of the
//! three registers that carry it, classifying it, and testing a feature bit
//! in the feature register. The paging core needs exactly one of these
//! answers — whether 4 MiB pages are supported.

use vstd::prelude::*;

verus! {

/// The CPU feature bits of the feature register (`edx` of leaf 1), by name.
#[derive(Clone, Copy, Debug, PartialEq, Eq, Structural)]
pub enum Features {
    Fpu,
    Vme,
    De,
    Pse,
    Tsc,
    Msr,
    Pae,
    Mce,
    Cx8,
    Apic,
    Sep,
    Mtrr,
    Pge,
    Mca,
    Cmov,
    Pat,
    Pse36,
    Psn,
    Clflush,
    Ds,
    Acpi,
    Mmx,
    Fxsr,
    Sse,
    Sse2,
    Ss,
    Htt,
    Tm,
    Ia64,
    Pbe,
}

/// The single-bit mask of a feature in the feature register.
pub open spec fn spec_feature_mask(f: Features) -> u32 {
    match f {
        Features::Fpu => 0x1,
        Features::Vme => 0x2,
        Features::De => 0x4,
        Features::Pse => 0x8,
        Features::Tsc => 0x10,
        Features::Msr => 0x20,
        Features::Pae => 0x40,
        Features::Mce => 0x80,
        Features::Cx8 => 0x100,
        Features::Apic => 0x200,
        Features::Sep => 0x800,
        Features::Mtrr => 0x1000,
        Features::Pge => 0x2000,
        Features::Mca => 0x4000,
        Features::Cmov => 0x8000,
        Features::Pat => 0x1_0000,
        Features::Pse36 => 0x2_0000,
        Features::Psn => 0x4_0000,
        Features::Clflush => 0x8_0000,
        Features::Ds => 0x20_0000,
        Features::Acpi => 0x40_0000,
        Features::Mmx => 0x80_0000,
        Features::Fxsr => 0x100_0000,
        Features::Sse => 0x200_0000,
        Features::Sse2 => 0x400_0000,
        Features::Ss => 0x800_0000,
        Features::Htt => 0x1000_0000,
        Features::Tm => 0x2000_0000,
        Features::Ia64 => 0x4000_0000,
        Features::Pbe => 0x8000_0000,
    }
}

/// The CPU vendors the vendor string distinguishes.
#[derive(Clone, Copy, Debug, PartialEq, Eq, Structural)]
pub enum Vendor {
    Amd,
    Intel,
    Via,
    Transmeta,
    Cyrix,
    Centaur,
    Nexgen,
    Umc,
    Sis,
    Nsc,
    Rise,
    Vortex,
    AO486,
    Zhaoxin,
    Hygon,
    Elbrus,
    Qemu,
    Kvm,
    Vmware,
    VirtualBox,
    Xen,
    HyperV,
    Parallels,
    Bhyve,
    Qnx,
    Unknown,
}

/// The general-purpose registers one `cpuid` call fills.
#[derive(Clone, Copy, Debug, PartialEq, Eq, Structural)]
pub struct CpuidGp {
    pub eax: u32,
    pub ebx: u32,
    pub ecx: u32,
    pub edx: u32,
}

/// The twelve bytes at `b0..b11` are exactly the string `s`.
pub open spec fn spec_name_is(
    s: Seq<u8>,
    b0: u8,
    b1: u8,
    b2: u8,
    b3: u8,
    b4: u8,
    b5: u8,
    b6: u8,
    b7: u8,
    b8: u8,
    b9: u8,
    b10: u8,
    b11: u8,
) -> bool {
    &&& s.len() == 12
    &&& s[0] == b0
    &&& s[1] == b1
    &&& s[2] == b2
    &&& s[3] == b3
    &&& s[4] == b4
    &&& s[5] == b5
    &&& s[6] == b6
    &&& s[7] == b7
    &&& s[8] == b8
    &&& s[9] == b9
    &&& s[10] == b10
    &&& s[11] == b11
}

#[allow(clippy::too_many_arguments)]
fn name_is(
    v: &[u8; 12],
    b0: u8,
    b1: u8,
    b2: u8,
    b3: u8,
    b4: u8,
    b5: u8,
    b6: u8,
    b7: u8,
    b8: u8,
    b9: u8,
    b10: u8,
    b11: u8,
) -> (r: bool)
    ensures
        r == spec_name_is(v@, b0, b1, b2, b3, b4, b5, b6, b7, b8, b9, b10, b11),
{
    v[0] == b0 && v[1] == b1 && v[2] == b2 && v[3] == b3 && v[4] == b4 && v[5] == b5 && v[6] == b6
        && v[7] == b7 && v[8] == b8 && v[9] == b9 && v[10] == b10 && v[11] == b11
}

/// The vendor a 12-byte vendor string denotes. Each comparison names the
/// vendor string it tests, byte for byte.
pub open spec fn spec_from_vendor_bytes(s: Seq<u8>) -> Vendor {
    if spec_name_is(s, 65u8, 117u8, 116u8, 104u8, 101u8, 110u8, 116u8, 105u8, 99u8, 65u8, 77u8, 68u8) || spec_name_is(s, 65u8, 77u8, 68u8, 105u8, 115u8, 98u8, 101u8, 116u8, 116u8, 101u8, 114u8, 33u8) {  // "AuthenticAMD" / "AMDisbetter!"
        Vendor::Amd
    } else if spec_name_is(s, 71u8, 101u8, 110u8, 117u8, 105u8, 110u8, 101u8, 73u8, 110u8, 116u8, 101u8, 108u8) {  // "GenuineIntel"
        Vendor::Intel
    } else if spec_name_is(s, 86u8, 73u8, 65u8, 32u8, 86u8, 73u8, 65u8, 32u8, 86u8, 73u8, 65u8, 32u8) {  // "VIA VIA VIA "
        Vendor::Via
    } else if spec_name_is(s, 71u8, 101u8, 110u8, 117u8, 105u8, 110u8, 101u8, 84u8, 77u8, 120u8, 56u8, 54u8) || spec_name_is(s, 84u8, 114u8, 97u8, 110u8, 115u8, 109u8, 101u8, 116u8, 97u8, 67u8, 80u8, 85u8) {  // "GenuineTMx86" / "TransmetaCPU"
        Vendor::Transmeta
    } else if spec_name_is(s, 67u8, 121u8, 114u8, 105u8, 120u8, 73u8, 110u8, 115u8, 116u8, 101u8, 97u8, 100u8) {  // "CyrixInstead"
        Vendor::Cyrix
    } else if spec_name_is(s, 67u8, 101u8, 110u8, 116u8, 97u8, 117u8, 114u8, 72u8, 97u8, 117u8, 108u8, 115u8) {  // "CentaurHauls"
        Vendor::Centaur
    } else if spec_name_is(s, 78u8, 101u8, 120u8, 71u8, 101u8, 110u8, 68u8, 114u8, 105u8, 118u8, 101u8, 110u8) {  // "NexGenDriven"
        Vendor::Nexgen
    } else if spec_name_is(s, 85u8, 77u8, 67u8, 32u8, 85u8, 77u8, 67u8, 32u8, 85u8, 77u8, 67u8, 32u8) {  // "UMC UMC UMC "
        Vendor::Umc
    } else if spec_name_is(s, 83u8, 105u8, 83u8, 32u8, 83u8, 105u8, 83u8, 32u8, 83u8, 105u8, 83u8, 32u8) {  // "SiS SiS SiS "
        Vendor::Sis
    } else if spec_name_is(s, 71u8, 101u8, 111u8, 100u8, 101u8, 32u8, 98u8, 121u8, 32u8, 78u8, 83u8, 67u8) {  // "Geode by NSC"
        Vendor::Nsc
    } else if spec_name_is(s, 82u8, 105u8, 115u8, 101u8, 82u8, 105u8, 115u8, 101u8, 82u8, 105u8, 115u8, 101u8) {  // "RiseRiseRise"
        Vendor::Rise
    } else if spec_name_is(s, 86u8, 111u8, 114u8, 116u8, 101u8, 120u8, 56u8, 54u8, 32u8, 83u8, 111u8, 67u8) {  // "Vortex86 SoC"
        Vendor::Vortex
    } else if spec_name_is(s, 77u8, 105u8, 83u8, 84u8, 101u8, 114u8, 32u8, 65u8, 79u8, 52u8, 56u8, 54u8) || spec_name_is(s, 71u8, 101u8, 110u8, 117u8, 105u8, 110u8, 101u8, 65u8, 79u8, 52u8, 56u8, 54u8) {  // "MiSTer AO486" / "GenuineAO486"
        Vendor::AO486
    } else if spec_name_is(s, 32u8, 32u8, 83u8, 104u8, 97u8, 110u8, 103u8, 104u8, 97u8, 105u8, 32u8, 32u8) {  // "  Shanghai  "
        Vendor::Zhaoxin
    } else if spec_name_is(s, 72u8, 121u8, 103u8, 111u8, 110u8, 71u8, 101u8, 110u8, 117u8, 105u8, 110u8, 101u8) {  // "HygonGenuine"
        Vendor::Hygon
    } else if spec_name_is(s, 69u8, 50u8, 75u8, 32u8, 77u8, 65u8, 67u8, 72u8, 73u8, 78u8, 69u8, 32u8) {  // "E2K MACHINE "
        Vendor::Elbrus
    } else if spec_name_is(s, 84u8, 67u8, 71u8, 84u8, 67u8, 71u8, 84u8, 67u8, 71u8, 84u8, 67u8, 71u8) {  // "TCGTCGTCGTCG"
        Vendor::Qemu
    } else if spec_name_is(s, 32u8, 75u8, 86u8, 77u8, 75u8, 86u8, 77u8, 75u8, 86u8, 77u8, 32u8, 32u8) {  // " KVMKVMKVM  "
        Vendor::Kvm
    } else if spec_name_is(s, 86u8, 77u8, 119u8, 97u8, 114u8, 101u8, 86u8, 77u8, 119u8, 97u8, 114u8, 101u8) {  // "VMwareVMware"
        Vendor::Vmware
    } else if spec_name_is(s, 86u8, 66u8, 111u8, 120u8, 86u8, 66u8, 111u8, 120u8, 86u8, 66u8, 111u8, 120u8) {  // "VBoxVBoxVBox"
        Vendor::VirtualBox
    } else if spec_name_is(s, 88u8, 101u8, 110u8, 86u8, 77u8, 77u8, 88u8, 101u8, 110u8, 86u8, 77u8, 77u8) {  // "XenVMMXenVMM"
        Vendor::Xen
    } else if spec_name_is(s, 77u8, 105u8, 99u8, 114u8, 111u8, 115u8, 111u8, 102u8, 116u8, 32u8, 72u8, 118u8) {  // "Microsoft Hv"
        Vendor::HyperV
    } else if spec_name_is(s, 32u8, 112u8, 114u8, 108u8, 32u8, 104u8, 121u8, 112u8, 101u8, 114u8, 118u8, 32u8) || spec_name_is(s, 32u8, 108u8, 114u8, 112u8, 101u8, 112u8, 121u8, 104u8, 32u8, 118u8, 114u8, 32u8) {  // " prl hyperv " / " lrpepyh vr "
        Vendor::Parallels
    } else if spec_name_is(s, 98u8, 104u8, 121u8, 118u8, 101u8, 32u8, 98u8, 104u8, 121u8, 118u8, 101u8, 32u8) {  // "bhyve bhyve "
        Vendor::Bhyve
    } else if spec_name_is(s, 32u8, 81u8, 78u8, 88u8, 81u8, 86u8, 77u8, 66u8, 83u8, 81u8, 71u8, 32u8) {  // " QNXQVMBSQG "
        Vendor::Qnx
    } else {
        Vendor::Unknown
    }
}

impl Vendor {
    /// Classifies a 12-byte vendor string.
    pub fn from_vendor_bytes(vendor: &[u8; 12]) -> (r: Self)
        ensures
            r == spec_from_vendor_bytes(vendor@),
    {
        if name_is(vendor, 65u8, 117u8, 116u8, 104u8, 101u8, 110u8, 116u8, 105u8, 99u8, 65u8, 77u8, 68u8) || name_is(vendor, 65u8, 77u8, 68u8, 105u8, 115u8, 98u8, 101u8, 116u8, 116u8, 101u8, 114u8, 33u8) {  // "AuthenticAMD" / "AMDisbetter!"
            Self::Amd
        } else if name_is(vendor, 71u8, 101u8, 110u8, 117u8, 105u8, 110u8, 101u8, 73u8, 110u8, 116u8, 101u8, 108u8) {  // "GenuineIntel"
            Self::Intel
        } else if name_is(vendor, 86u8, 73u8, 65u8, 32u8, 86u8, 73u8, 65u8, 32u8, 86u8, 73u8, 65u8, 32u8) {  // "VIA VIA VIA "
            Self::Via
        } else if name_is(vendor, 71u8, 101u8, 110u8, 117u8, 105u8, 110u8, 101u8, 84u8, 77u8, 120u8, 56u8, 54u8) || name_is(vendor, 84u8, 114u8, 97u8, 110u8, 115u8, 109u8, 101u8, 116u8, 97u8, 67u8, 80u8, 85u8) {  // "GenuineTMx86" / "TransmetaCPU"
            Self::Transmeta
        } else if name_is(vendor, 67u8, 121u8, 114u8, 105u8, 120u8, 73u8, 110u8, 115u8, 116u8, 101u8, 97u8, 100u8) {  // "CyrixInstead"
            Self::Cyrix
        } else if name_is(vendor, 67u8, 101u8, 110u8, 116u8, 97u8, 117u8, 114u8, 72u8, 97u8, 117u8, 108u8, 115u8) {  // "CentaurHauls"
            Self::Centaur
        } else if name_is(vendor, 78u8, 101u8, 120u8, 71u8, 101u8, 110u8, 68u8, 114u8, 105u8, 118u8, 101u8, 110u8) {  // "NexGenDriven"
            Self::Nexgen
        } else if name_is(vendor, 85u8, 77u8, 67u8, 32u8, 85u8, 77u8, 67u8, 32u8, 85u8, 77u8, 67u8, 32u8) {  // "UMC UMC UMC "
            Self::Umc
        } else if name_is(vendor, 83u8, 105u8, 83u8, 32u8, 83u8, 105u8, 83u8, 32u8, 83u8, 105u8, 83u8, 32u8) {  // "SiS SiS SiS "
            Self::Sis
        } else if name_is(vendor, 71u8, 101u8, 111u8, 100u8, 101u8, 32u8, 98u8, 121u8, 32u8, 78u8, 83u8, 67u8) {  // "Geode by NSC"
            Self::Nsc
        } else if name_is(vendor, 82u8, 105u8, 115u8, 101u8, 82u8, 105u8, 115u8, 101u8, 82u8, 105u8, 115u8, 101u8) {  // "RiseRiseRise"
            Self::Rise
        } else if name_is(vendor, 86u8, 111u8, 114u8, 116u8, 101u8, 120u8, 56u8, 54u8, 32u8, 83u8, 111u8, 67u8) {  // "Vortex86 SoC"
            Self::Vortex
        } else if name_is(vendor, 77u8, 105u8, 83u8, 84u8, 101u8, 114u8, 32u8, 65u8, 79u8, 52u8, 56u8, 54u8) || name_is(vendor, 71u8, 101u8, 110u8, 117u8, 105u8, 110u8, 101u8, 65u8, 79u8, 52u8, 56u8, 54u8) {  // "MiSTer AO486" / "GenuineAO486"
            Self::AO486
        } else if name_is(vendor, 32u8, 32u8, 83u8, 104u8, 97u8, 110u8, 103u8, 104u8, 97u8, 105u8, 32u8, 32u8) {  // "  Shanghai  "
            Self::Zhaoxin
        } else if name_is(vendor, 72u8, 121u8, 103u8, 111u8, 110u8, 71u8, 101u8, 110u8, 117u8, 105u8, 110u8, 101u8) {  // "HygonGenuine"
            Self::Hygon
        } else if name_is(vendor, 69u8, 50u8, 75u8, 32u8, 77u8, 65u8, 67u8, 72u8, 73u8, 78u8, 69u8, 32u8) {  // "E2K MACHINE "
            Self::Elbrus
        } else if name_is(vendor, 84u8, 67u8, 71u8, 84u8, 67u8, 71u8, 84u8, 67u8, 71u8, 84u8, 67u8, 71u8) {  // "TCGTCGTCGTCG"
            Self::Qemu
        } else if name_is(vendor, 32u8, 75u8, 86u8, 77u8, 75u8, 86u8, 77u8, 75u8, 86u8, 77u8, 32u8, 32u8) {  // " KVMKVMKVM  "
            Self::Kvm
        } else if name_is(vendor, 86u8, 77u8, 119u8, 97u8, 114u8, 101u8, 86u8, 77u8, 119u8, 97u8, 114u8, 101u8) {  // "VMwareVMware"
            Self::Vmware
        } else if name_is(vendor, 86u8, 66u8, 111u8, 120u8, 86u8, 66u8, 111u8, 120u8, 86u8, 66u8, 111u8, 120u8) {  // "VBoxVBoxVBox"
            Self::VirtualBox
        } else if name_is(vendor, 88u8, 101u8, 110u8, 86u8, 77u8, 77u8, 88u8, 101u8, 110u8, 86u8, 77u8, 77u8) {  // "XenVMMXenVMM"
            Self::Xen
        } else if name_is(vendor, 77u8, 105u8, 99u8, 114u8, 111u8, 115u8, 111u8, 102u8, 116u8, 32u8, 72u8, 118u8) {  // "Microsoft Hv"
            Self::HyperV
        } else if name_is(vendor, 32u8, 112u8, 114u8, 108u8, 32u8, 104u8, 121u8, 112u8, 101u8, 114u8, 118u8, 32u8) || name_is(vendor, 32u8, 108u8, 114u8, 112u8, 101u8, 112u8, 121u8, 104u8, 32u8, 118u8, 114u8, 32u8) {  // " prl hyperv " / " lrpepyh vr "
            Self::Parallels
        } else if name_is(vendor, 98u8, 104u8, 121u8, 118u8, 101u8, 32u8, 98u8, 104u8, 121u8, 118u8, 101u8, 32u8) {  // "bhyve bhyve "
            Self::Bhyve
        } else if name_is(vendor, 32u8, 81u8, 78u8, 88u8, 81u8, 86u8, 77u8, 66u8, 83u8, 81u8, 71u8, 32u8) {  // " QNXQVMBSQG "
            Self::Qnx
        } else {
            Self::Unknown
        }
    }
}

/// The twelve vendor-string bytes as laid out across the three registers of
/// leaf 0: `ebx`, then `edx`, then `ecx`, least significant byte first.
pub open spec fn spec_vendor_bytes(regs: CpuidGp) -> Seq<u8> {
    seq![
        (regs.ebx & 0xFF) as u8,
        ((regs.ebx >> 8) & 0xFF) as u8,
        ((regs.ebx >> 16) & 0xFF) as u8,
        ((regs.ebx >> 24) & 0xFF) as u8,
        (regs.edx & 0xFF) as u8,
        ((regs.edx >> 8) & 0xFF) as u8,
        ((regs.edx >> 16) & 0xFF) as u8,
        ((regs.edx >> 24) & 0xFF) as u8,
        (regs.ecx & 0xFF) as u8,
        ((regs.ecx >> 8) & 0xFF) as u8,
        ((regs.ecx >> 16) & 0xFF) as u8,
        ((regs.ecx >> 24) & 0xFF) as u8,
    ]
}

proof fn lemma_byte_mask_fits()
    by (bit_vector)
    ensures
        forall|x: u32| #[trigger] (x & 0xFF) < 256,
{
}

/// The vendor named by the registers `cpuid` leaf 0 returned.
pub fn get_vendor(regs: &CpuidGp) -> (r: Vendor)
    ensures
        r == spec_from_vendor_bytes(spec_vendor_bytes(*regs)),
{
    proof {
        lemma_byte_mask_fits();
    }
    let vendor_str: [u8; 12] = [
        (regs.ebx & 0xFF) as u8,
        ((regs.ebx >> 8) & 0xFF) as u8,
        ((regs.ebx >> 16) & 0xFF) as u8,
        ((regs.ebx >> 24) & 0xFF) as u8,
        (regs.edx & 0xFF) as u8,
        ((regs.edx >> 8) & 0xFF) as u8,
        ((regs.edx >> 16) & 0xFF) as u8,
        ((regs.edx >> 24) & 0xFF) as u8,
        (regs.ecx & 0xFF) as u8,
        ((regs.ecx >> 8) & 0xFF) as u8,
        ((regs.ecx >> 16) & 0xFF) as u8,
        ((regs.ecx >> 24) & 0xFF) as u8,
    ];
    proof {
        assert(vendor_str@ =~= spec_vendor_bytes(*regs));
    }
    Vendor::from_vendor_bytes(&vendor_str)
}

/// Whether the registers `cpuid` leaf 1 returned carry the given feature
/// bit.
pub fn feature_present(regs: &CpuidGp, feature: &Features) -> (r: bool)
    ensures
        r == ((regs.edx & spec_feature_mask(*feature)) != 0),
{
    let mask: u32 = match feature {
        Features::Fpu => 0x1,
        Features::Vme => 0x2,
        Features::De => 0x4,
        Features::Pse => 0x8,
        Features::Tsc => 0x10,
        Features::Msr => 0x20,
        Features::Pae => 0x40,
        Features::Mce => 0x80,
        Features::Cx8 => 0x100,
        Features::Apic => 0x200,
        Features::Sep => 0x800,
        Features::Mtrr => 0x1000,
        Features::Pge => 0x2000,
        Features::Mca => 0x4000,
        Features::Cmov => 0x8000,
        Features::Pat => 0x1_0000,
        Features::Pse36 => 0x2_0000,
        Features::Psn => 0x4_0000,
        Features::Clflush => 0x8_0000,
        Features::Ds => 0x20_0000,
        Features::Acpi => 0x40_0000,
        Features::Mmx => 0x80_0000,
        Features::Fxsr => 0x100_0000,
        Features::Sse => 0x200_0000,
        Features::Sse2 => 0x400_0000,
        Features::Ss => 0x800_0000,
        Features::Htt => 0x1000_0000,
        Features::Tm => 0x2000_0000,
        Features::Ia64 => 0x4000_0000,
        Features::Pbe => 0x8000_0000,
    };
    (regs.edx & mask) != 0
}

} // verus!
