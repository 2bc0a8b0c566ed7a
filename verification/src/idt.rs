//! The interrupt-descriptor table's data formats.
//!
//! Loading the table into the CPU and dispatching interrupts are the boot
//! glue's work; what stands here is the data: the packed 64-bit gate
//! descriptor, the register frame an interrupt handler receives, the
//! register block the `lidt`/`sidt` instructions exchange, and installing a
//! gate into the table.

use vstd::prelude::*;

verus! {

/// The register block `lidt` loads and `sidt` stores: the table's byte limit
/// and base address. The global-descriptor-table register shares the layout.
#[derive(Clone, Copy, Debug, PartialEq, Eq, Structural)]
pub struct SharedGdtrAndIdtr {
    pub limit: u16,
    pub base: u32,
}

/// One interrupt gate, unpacked: the handler's address, its code-segment
/// selector, a type code, the privilege level allowed to invoke it, and a
/// presence flag.
#[derive(Clone, Copy, Debug, PartialEq, Eq, Structural)]
pub struct InterruptGate {
    pub offset: u32,
    pub segment_selector: u16,
    pub gate_type: u8,
    pub dpl: u8,
    pub present: bool,
}

/// The packed descriptor word of a gate: offset split across bits 0..16 and
/// 48..64, selector at 16, type at 40, privilege level at 45, present at 47.
pub open spec fn spec_gate_to_u64(g: InterruptGate) -> u64 {
    ((g.offset & 0xFFFF) as u64) | ((g.segment_selector as u64) << 16) | (((g.gate_type
        & 0b1111) as u64) << 40) | (((g.dpl & 0b11) as u64) << 45) | ((if g.present {
        1u64
    } else {
        0u64
    }) << 47) | (((g.offset >> 16) as u64) << 48)
}

impl InterruptGate {
    /// Packs this entry's descriptor word.
    pub fn to_u64(&self) -> (r: u64)
        ensures
            r == spec_gate_to_u64(*self),
    {
        let mut gate: u64 = (self.offset & 0xFFFF) as u64;
        gate = gate | ((self.segment_selector as u64) << 16);
        gate = gate | (((self.gate_type & 0b1111) as u64) << 40);
        gate = gate | (((self.dpl & 0b11) as u64) << 45);
        gate = gate | ((if self.present {
            1u64
        } else {
            0u64
        }) << 47);
        gate = gate | (((self.offset >> 16) as u64) << 48);
        gate
    }
}

/// The saved register frame an interrupt handler receives: the
/// general-purpose registers, the interrupt and error numbers, and the
/// interrupted context's instruction pointer, code segment and flags.
#[derive(Clone, Copy, Debug, PartialEq, Eq, Structural)]
pub struct ISRFrame {
    pub edi: u32,
    pub esi: u32,
    pub ebp: u32,
    pub esp: u32,
    pub ebx: u32,
    pub edx: u32,
    pub ecx: u32,
    pub eax: u32,
    pub int_no: u32,
    pub err_no: u32,
    pub eip: u32,
    pub cs: u32,
    pub eflags: u32,
}

/// Installs `gate`, packed, into slot `idx` of the 256-entry gate table.
pub fn set_interrupt_gate(gates: &mut Vec<u64>, gate: InterruptGate, idx: u8)
    requires
        old(gates)@.len() == 256,
    ensures
        final(gates)@ == old(gates)@.update(idx as int, spec_gate_to_u64(gate)),
{
    gates[idx as usize] = gate.to_u64();
}

} // verus!
