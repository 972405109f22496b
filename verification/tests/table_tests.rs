//! The descriptor tables: selectors and hardware encodings.

use redk::gdt::{
    build_gdt, gdtr_for, selector, GDTEntry, TSSEntry, DPL, GDT_ENTRIES, KERNEL_CODE_SEGMENT,
    KERNEL_DATA_SEGMENT, TSS_SEGMENT, TSS_SIZE, USER_CODE_SEGMENT, USER_DATA_SEGMENT,
};
use redk::idt::{IDTEntry, IDT_INTERRUPT_GATE_32};
use redk::interrupts::{
    build_idt, init_interrupts, IDT_ENTRIES, VECTOR_FAULT, VECTOR_KEYBOARD, VECTOR_SYSCALL,
    VECTOR_TIMER,
};

fn limit_of(d: u64) -> u64 {
    (d & 0xFFFF) | (((d >> 48) & 0xF) << 16)
}

fn base_of(d: u64) -> u64 {
    ((d >> 16) & 0xFFFFFF) | (((d >> 56) & 0xFF) << 24)
}

fn dpl_of(d: u64) -> u64 {
    (d >> 45) & 3
}

fn type_of(d: u64) -> u64 {
    (d >> 40) & 0xF
}

fn gate_offset_of(d: u64) -> u64 {
    (d & 0xFFFF) | (((d >> 48) & 0xFFFF) << 16)
}

#[test]
fn selectors_are_index_times_descriptor_size() {
    for i in 0..GDT_ENTRIES {
        assert_eq!(selector(i), (i * 8) as u16);
    }
    assert_eq!(selector(1) as usize, KERNEL_CODE_SEGMENT);
    assert_eq!(selector(2) as usize, KERNEL_DATA_SEGMENT);
    assert_eq!(selector(3) as usize, USER_CODE_SEGMENT);
    assert_eq!(selector(4) as usize, USER_DATA_SEGMENT);
    assert_eq!(selector(5) as usize, TSS_SEGMENT);
}

#[test]
fn tss_descriptor_encodes_size_minus_one() {
    let d = GDTEntry::new_tss_segment(0x123456).0;
    assert_eq!(limit_of(d), (TSS_SIZE - 1) as u64);
    assert_eq!(limit_of(d), 0x67);
    assert_eq!(base_of(d), 0x123456);
    assert_eq!(type_of(d), 0x9);
    assert_eq!((d >> 47) & 1, 1); // present
    assert_eq!((d >> 44) & 1, 0); // a system descriptor
}

#[test]
fn tss_descriptor_carries_the_whole_base() {
    // a record above 16 MiB: the base's high byte lands in bits 63..56
    let d = GDTEntry::new_tss_segment(0xAB12_3456).0;
    assert_eq!(base_of(d), 0xAB12_3456);
    assert_eq!((d >> 56) & 0xFF, 0xAB);
    assert_eq!(limit_of(d), 0x67);
}

#[test]
fn code_and_data_descriptors_encode_their_fields() {
    let code = GDTEntry::new_code_segment(0, 0xFFFFF, DPL::Ring0, true).0;
    assert_eq!(limit_of(code), 0xFFFFF);
    assert_eq!(base_of(code), 0);
    assert_eq!(type_of(code), 0xA);
    assert_eq!(dpl_of(code), 0);
    assert_eq!((code >> 55) & 1, 1); // page granularity

    let data = GDTEntry::new_data_segment(0x40000, 0x2000, DPL::Ring3, false).0;
    assert_eq!(limit_of(data), 0x2000);
    assert_eq!(base_of(data), 0x40000);
    assert_eq!(type_of(data), 0x2);
    assert_eq!(dpl_of(data), 3);
    assert_eq!((data >> 55) & 1, 0);
}

#[test]
fn segments_are_32_bit() {
    for d in [
        GDTEntry::new_code_segment(0, 0xFFFFF, DPL::Ring0, true).0,
        GDTEntry::new_data_segment(0, 0xFFFFF, DPL::Ring3, true).0,
    ] {
        assert_eq!((d >> 44) & 1, 1); // a code or data segment
        assert_eq!((d >> 52) & 1, 0); // available-to-software clear
        assert_eq!((d >> 53) & 1, 0); // not a long-mode segment
        assert_eq!((d >> 54) & 1, 1); // 32-bit operation size
    }
}

#[test]
fn the_boot_table_has_six_descriptors() {
    let gdt = build_gdt(0x5000);
    assert_eq!(gdt.len(), 6);
    assert_eq!(gdt[0].0, 0);
    assert_eq!(dpl_of(gdt[1].0), 0);
    assert_eq!(dpl_of(gdt[3].0), 3);
    assert_eq!(dpl_of(gdt[4].0), 3);
    assert_eq!(limit_of(gdt[5].0), 0x67);
    assert_eq!(base_of(gdt[5].0), 0x5000);
    let gdtr = gdtr_for(0x9000);
    assert_eq!(gdtr.limit, 47);
    assert_eq!(gdtr.base, 0x9000);
}

#[test]
fn task_state_names_the_kernel_stack() {
    let tss = TSSEntry::for_kernel_stack(0xCAFE00);
    assert_eq!(tss.ss0 as usize, KERNEL_DATA_SEGMENT);
    assert_eq!(tss.esp0, 0xCAFE00);
    assert_eq!(tss.eip, 0);
    let fresh = TSSEntry::new();
    assert_eq!(fresh.ss0, 0);
}

#[test]
fn interrupt_gates_encode_their_fields() {
    let gate = IDTEntry::new_interrupt_gate(0xDEADBEEF, 8, DPL::Ring3).0;
    assert_eq!(gate_offset_of(gate), 0xDEADBEEF);
    assert_eq!((gate >> 16) & 0xFFFF, 8); // the selector
    assert_eq!((gate >> 40) & 0x1F, IDT_INTERRUPT_GATE_32 as u64);
    assert_eq!(dpl_of(gate), 3);
    assert_eq!((gate >> 47) & 1, 1);
}

#[test]
fn only_the_syscall_vector_is_ring3_callable() {
    let idt = build_idt(0x100, 0x200, 0x300, 0x400);
    assert_eq!(idt.len(), IDT_ENTRIES);
    assert_eq!(gate_offset_of(idt[VECTOR_FAULT as usize].0), 0x100);
    assert_eq!(gate_offset_of(idt[VECTOR_TIMER as usize].0), 0x200);
    assert_eq!(gate_offset_of(idt[VECTOR_KEYBOARD as usize].0), 0x300);
    assert_eq!(gate_offset_of(idt[VECTOR_SYSCALL as usize].0), 0x400);
    let special = [VECTOR_FAULT, VECTOR_TIMER, VECTOR_KEYBOARD, VECTOR_SYSCALL];
    for (v, gate) in idt.iter().enumerate() {
        if special.contains(&(v as u32)) {
            assert_eq!((gate.0 >> 16) & 0xFFFF, 8); // the kernel code selector
            assert_eq!((gate.0 >> 47) & 1, 1); // present
            let expected_dpl = if v == VECTOR_SYSCALL as usize { 3 } else { 0 };
            assert_eq!(dpl_of(gate.0), expected_dpl);
        } else {
            assert_eq!(gate.0, 0); // every other slot is null
        }
    }
}

#[test]
fn init_interrupts_sizes_the_register() {
    let (idt, idtr) = init_interrupts(1, 2, 3, 4, 0x7000);
    assert_eq!(idt.len(), 255);
    assert_eq!(idtr.limit, 255 * 8 - 1);
    assert_eq!(idtr.base, 0x7000);
}
