//! Tests for alignment, the write-once cell, the interrupt-safe mutex, the
//! logging policy, CPU identification and the interrupt-gate format.

use caelyx::align::{align_ptr_down, align_ptr_up};
use caelyx::cpuid::{feature_present, get_vendor, CpuidGp, Features, Vendor};
use caelyx::idt::{set_interrupt_gate, InterruptGate, SharedGdtrAndIdtr};
use caelyx::isituninit::{IsItUninit, WriteOnceError};
use caelyx::logger::{LogLevel, Logger};
use caelyx::mutex::Mutex;

#[test]
fn align_up_and_down() {
    assert_eq!(align_ptr_up(5, 8), 8);
    assert_eq!(align_ptr_up(8, 8), 8);
    assert_eq!(align_ptr_up(0, 4096), 0);
    assert_eq!(align_ptr_up(0x1001, 4096), 0x2000);
    assert_eq!(align_ptr_down(5, 8), 0);
    assert_eq!(align_ptr_down(8, 8), 8);
    assert_eq!(align_ptr_down(0x1FFF, 4096), 0x1000);
}

#[test]
fn write_once_cell() {
    let mut cell: IsItUninit<u32> = IsItUninit::new();
    assert!(!cell.initialized());
    assert!(cell.try_get_ref().is_none());
    assert_eq!(cell.try_write_once(7), Ok(()));
    assert!(cell.initialized());
    assert_eq!(cell.try_get_ref(), Some(&7));
    assert_eq!(cell.get_ref(), &7);
    assert_eq!(cell.try_write_once(9), Err(WriteOnceError));
    assert_eq!(cell.get_ref(), &7);
    *cell.get_mut() = 11;
    match cell.try_get_mut() {
        Some(v) => *v = 12,
        None => panic!("initialized cell lost its value"),
    }
    assert_eq!(cell.get(), 12);
    let mut empty: IsItUninit<u32> = IsItUninit::new();
    assert!(empty.try_get_mut().is_none());

    let mut cell2: IsItUninit<u32> = IsItUninit::new();
    cell2.write_once(3);
    assert_eq!(cell2.try_get(), Some(3));

    let mut cell3: IsItUninit<u32> = IsItUninit::new();
    cell3.write(1);
    cell3.write(2);
    assert_eq!(cell3.get(), 2);
}

#[test]
fn mutex_carries_value_and_interrupt_state() {
    let m = Mutex::new(42u32);
    // Interrupts were enabled when the lock was taken: release must
    // re-enable them.
    let mut g = m.lock(true);
    assert_eq!(*g.get_ref(), 42);
    *g.get_mut() = 43;
    let (m, reenable) = g.unlock();
    assert!(reenable);
    // They were already disabled this time: release must leave them off.
    let g = m.lock(false);
    assert_eq!(*g.get_ref(), 43);
    let (_, reenable) = g.unlock();
    assert!(!reenable);
}

#[test]
fn log_levels_filter_by_severity() {
    assert!(LogLevel::Fatal.should_display(&LogLevel::Trace));
    assert!(LogLevel::Error.should_display(&LogLevel::Error));
    assert!(!LogLevel::Debug.should_display(&LogLevel::Info));
    assert!(!LogLevel::Trace.should_display(&LogLevel::Fatal));
    let logger = Logger::new(LogLevel::Warning);
    assert!(logger.displays(&LogLevel::Fatal));
    assert!(logger.displays(&LogLevel::Warning));
    assert!(!logger.displays(&LogLevel::Info));
}

#[test]
fn vendor_strings_classify() {
    assert_eq!(Vendor::from_vendor_bytes(b"GenuineIntel"), Vendor::Intel);
    assert_eq!(Vendor::from_vendor_bytes(b"AuthenticAMD"), Vendor::Amd);
    assert_eq!(Vendor::from_vendor_bytes(b"AMDisbetter!"), Vendor::Amd);
    assert_eq!(Vendor::from_vendor_bytes(b"TCGTCGTCGTCG"), Vendor::Qemu);
    assert_eq!(Vendor::from_vendor_bytes(b"dodgy vendor"), Vendor::Unknown);
}

#[test]
fn vendor_bytes_come_from_registers_in_order() {
    // "GenuineIntel": ebx = "Genu", edx = "ineI", ecx = "ntel",
    // least significant byte first.
    let regs = CpuidGp {
        eax: 0,
        ebx: u32::from_le_bytes(*b"Genu"),
        edx: u32::from_le_bytes(*b"ineI"),
        ecx: u32::from_le_bytes(*b"ntel"),
    };
    assert_eq!(get_vendor(&regs), Vendor::Intel);
}

#[test]
fn feature_bits_test_the_feature_register() {
    // Bit 3 is the 4 MiB-page feature.
    let regs = CpuidGp { eax: 0, ebx: 0, ecx: 0, edx: 0x8 };
    assert!(feature_present(&regs, &Features::Pse));
    assert!(!feature_present(&regs, &Features::Fpu));
    assert!(!feature_present(&regs, &Features::Pae));
    let none = CpuidGp { eax: 0, ebx: 0, ecx: 0, edx: 0 };
    assert!(!feature_present(&none, &Features::Pse));
}

#[test]
fn interrupt_gate_packs_exactly() {
    let gate = InterruptGate {
        offset: 0x1234_5678,
        segment_selector: 0x08,
        gate_type: 0xE,
        dpl: 0,
        present: true,
    };
    assert_eq!(gate.to_u64(), 0x1234_8E00_0008_5678);
    let absent = InterruptGate {
        offset: 0,
        segment_selector: 0,
        gate_type: 0,
        dpl: 0,
        present: false,
    };
    assert_eq!(absent.to_u64(), 0);
}

#[test]
fn gates_install_into_the_table() {
    let mut gates = vec![0u64; 256];
    let gate = InterruptGate {
        offset: 0xDEAD_BEEF,
        segment_selector: 0x08,
        gate_type: 0xE,
        dpl: 3,
        present: true,
    };
    set_interrupt_gate(&mut gates, gate, 32);
    assert_eq!(gates[32], gate.to_u64());
    assert_eq!(gates[31], 0);
    assert_eq!(gates[33], 0);
    let idtr = SharedGdtrAndIdtr { limit: 256 * 8 - 1, base: 0 };
    assert_eq!(idtr.limit, 2047);
}
