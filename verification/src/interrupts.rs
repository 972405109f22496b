//! The interrupt layer: the register snapshot captured at interrupt
//! entry, the interrupt table built at boot, and the router that hands
//! each vector to its handler.
//!
//! The low-level stubs that save and restore the registers, the
//! privileged table-load instruction, and the interrupt controller are
//! hardware outside this crate; what is verified here is the snapshot's
//! shape, the table's encoding, and the routing decision.

use vstd::prelude::*;
use crate::gdt::KERNEL_CODE_SEGMENT;
use crate::idt::{gate_dpl, gate_offset, gate_present, gate_selector, gate_type, IDTEntry, IDTR,
    IDT_INTERRUPT_GATE_32};
use crate::gdt::DPL;
use crate::kernel::KernelState;
use crate::syscall::{self, spec_syscall_post, spec_syscall_pre};
use crate::timer;
use crate::keyboard;

verus! {

/// Vector of the reserved fault entry.
pub const VECTOR_FAULT: u32 = 0;

/// Vector raised by the timer chip.
pub const VECTOR_TIMER: u32 = 64;

/// Vector raised by the keyboard controller.
pub const VECTOR_KEYBOARD: u32 = 65;

/// The one vector user code may raise: the system-call gate.
pub const VECTOR_SYSCALL: u32 = 128;

/// Number of entries of the interrupt table.
pub const IDT_ENTRIES: usize = 255;

/// The ordered snapshot of the general-purpose registers plus the
/// vector number and the hardware error code, captured at interrupt
/// entry before any handler logic runs. The `eax` slot doubles as the
/// system-call number on entry and the return value on exit.
#[derive(Clone, Copy, Debug, PartialEq, Eq, Structural)]
pub struct InterruptContext {
    pub edi: u32,
    pub esi: u32,
    pub ebp: u32,
    pub esp: u32,
    pub ebx: u32,
    pub edx: u32,
    pub ecx: u32,
    pub eax: u32,
    pub interrupt_number: u32,
    pub error_code: u32,
}

/// Handles a timer interrupt: the clock advances one tick and the tone
/// player moves with it. (The end-of-interrupt acknowledgement to the
/// interrupt controller is a hardware effect outside this crate.)
pub fn pit_handler(_context: &mut InterruptContext, st: &mut KernelState)
    requires
        old(st).wf(),
        old(st).ticks + 1 < timer::TICK_LIMIT,
    ensures
        final(st).wf(),
        final(st).ticks == old(st).ticks + 1,
        final(st).speaker@ == crate::speaker::spec_speaker_tick(
            old(st).speaker@,
            ((old(st).ticks + 1) * 10) as u64,
        ),
        final(st).scans == old(st).scans,
        final(st).process == old(st).process,
        final(st).fs == old(st).fs,
        final(st).serial_out == old(st).serial_out,
        final(st).vga_out == old(st).vga_out,
        *final(_context) == *old(_context),
{
    timer::tick(&mut st.ticks, &mut st.speaker);
}

/// Handles a keyboard interrupt: the scan code read from the
/// controller's data port, when the status port had one, is queued.
/// (The port reads themselves are hardware outside this crate; the
/// caller hands the outcome in.)
pub fn keyboard_handler(
    _context: &mut InterruptContext,
    st: &mut KernelState,
    scan: Option<u8>,
)
    requires
        old(st).wf(),
    ensures
        final(st).wf(),
        match scan {
            Some(code) => {
                &&& old(st).scans.count() < keyboard::SCAN_BUFFER_SIZE ==> final(st).scans.pending() == old(st).scans.pending().push(code)
                &&& old(st).scans.count() == keyboard::SCAN_BUFFER_SIZE ==> final(st).scans == old(
                    st,
                ).scans
            }
            None => final(st).scans == old(st).scans,
        },
        final(st).ticks == old(st).ticks,
        final(st).speaker == old(st).speaker,
        final(st).process == old(st).process,
        final(st).fs == old(st).fs,
        final(st).serial_out == old(st).serial_out,
        final(st).vga_out == old(st).vga_out,
        *final(_context) == *old(_context),
{
    if let Some(code) = scan {
        keyboard::receive_scan(&mut st.scans, code);
    }
}

/// Builds the interrupt table: a gate through the kernel code segment
/// at the reserved fault vector, the timer vector, the keyboard vector,
/// and the system-call vector, each to its entry stub; every other slot
/// is null. Only the system-call gate may be raised from ring 3: it is
/// the one sanctioned path by which user code elevates privilege.
/// The boot interrupt table is as §4.2 lays it out: present gates,
/// through the kernel code selector and to the given entry stubs, at
/// exactly the fault, timer, keyboard and system-call vectors; every
/// other slot is null; and only the system-call gate carries ring-3
/// privilege — the sole path by which user code may elevate.
pub open spec fn spec_idt_ok(
    gates: Seq<IDTEntry>,
    isr_fault: u32,
    isr_timer: u32,
    isr_keyboard: u32,
    isr_syscall: u32,
) -> bool {
    &&& gates.len() == IDT_ENTRIES
    &&& gate_offset(gates[VECTOR_FAULT as int].0) == isr_fault
    &&& gate_offset(gates[VECTOR_TIMER as int].0) == isr_timer
    &&& gate_offset(gates[VECTOR_KEYBOARD as int].0) == isr_keyboard
    &&& gate_offset(gates[VECTOR_SYSCALL as int].0) == isr_syscall
    &&& forall|v: int|
        v == VECTOR_FAULT || v == VECTOR_TIMER || v == VECTOR_KEYBOARD || v == VECTOR_SYSCALL
            ==> gate_selector(#[trigger] gates[v].0) == KERNEL_CODE_SEGMENT && gate_type(
            gates[v].0,
        ) == IDT_INTERRUPT_GATE_32 && gate_present(gates[v].0) == 1
    &&& gate_dpl(gates[VECTOR_SYSCALL as int].0) == 3
    &&& forall|v: int|
        v == VECTOR_FAULT || v == VECTOR_TIMER || v == VECTOR_KEYBOARD ==> gate_dpl(
            #[trigger] gates[v].0,
        ) == 0
    &&& forall|v: int|
        0 <= v < gates.len() && v != VECTOR_FAULT && v != VECTOR_TIMER && v != VECTOR_KEYBOARD
            && v != VECTOR_SYSCALL ==> (#[trigger] gates[v]).0 == 0
}

pub fn build_idt(isr_fault: u32, isr_timer: u32, isr_keyboard: u32, isr_syscall: u32) -> (r: Vec<
    IDTEntry,
>)
    ensures
        spec_idt_ok(r@, isr_fault, isr_timer, isr_keyboard, isr_syscall),
{
    let mut idt: Vec<IDTEntry> = Vec::new();
    let mut i: usize = 0;
    while i < IDT_ENTRIES
        invariant
            i <= IDT_ENTRIES,
            idt@.len() == i,
            forall|v: int| 0 <= v < i ==> (#[trigger] idt@[v]).0 == 0,
        decreases IDT_ENTRIES - i,
    {
        idt.push(IDTEntry(0));
        i += 1;
    }
    let selector = KERNEL_CODE_SEGMENT as u16;
    idt[VECTOR_FAULT as usize] = IDTEntry::new_interrupt_gate(isr_fault, selector, DPL::Ring0);
    idt[VECTOR_TIMER as usize] = IDTEntry::new_interrupt_gate(isr_timer, selector, DPL::Ring0);
    idt[VECTOR_KEYBOARD as usize] = IDTEntry::new_interrupt_gate(
        isr_keyboard,
        selector,
        DPL::Ring0,
    );
    idt[VECTOR_SYSCALL as usize] = IDTEntry::new_interrupt_gate(isr_syscall, selector, DPL::Ring3);
    idt
}

/// The register value for the interrupt table: its byte size less one,
/// and its address.
pub fn load_idt(idt: &Vec<IDTEntry>, base: u32) -> (r: IDTR)
    requires
        idt@.len() == IDT_ENTRIES,
    ensures
        r.limit == IDT_ENTRIES * 8 - 1,
        r.base == base,
{
    IDTR { limit: (IDT_ENTRIES * 8 - 1) as u16, base }
}

/// Builds the boot interrupt table and its register value. (Loading
/// the register, programming the interrupt controller and the timer
/// chip's rate, and re-enabling delivery are hardware steps outside
/// this crate.)
pub fn init_interrupts(
    isr_fault: u32,
    isr_timer: u32,
    isr_keyboard: u32,
    isr_syscall: u32,
    base: u32,
) -> (r: (Vec<IDTEntry>, IDTR))
    ensures
        spec_idt_ok(r.0@, isr_fault, isr_timer, isr_keyboard, isr_syscall),
        r.1.limit == IDT_ENTRIES * 8 - 1,
        r.1.base == base,
{
    let idt = build_idt(isr_fault, isr_timer, isr_keyboard, isr_syscall);
    let idtr = load_idt(&idt, base);
    (idt, idtr)
}

/// Routes one captured interrupt to its handler: the timer tick, the
/// keyboard's scan ingestion, or the system-call dispatcher; any other
/// vector does nothing. `scan` carries what the keyboard controller's
/// ports yielded (hardware this crate does not touch), and `mem` is
/// the user program's memory for the system-call ABI's pointer
/// arguments.
pub fn isr_generic_handler(
    context: &mut InterruptContext,
    st: &mut KernelState,
    mem: &mut Vec<u8>,
    scan: Option<u8>,
)
    requires
        old(st).wf(),
        old(context).interrupt_number == VECTOR_TIMER ==> old(st).ticks + 1 < timer::TICK_LIMIT,
        old(context).interrupt_number == VECTOR_SYSCALL ==> spec_syscall_pre(
            *old(context),
            *old(st),
            old(mem)@,
        ),
    ensures
        final(st).wf(),
        ({
            let vector = old(context).interrupt_number;
            &&& vector != VECTOR_TIMER && vector != VECTOR_KEYBOARD && vector != VECTOR_SYSCALL
                ==> *final(st) == *old(st) && *final(context) == *old(context) && final(mem)@
                == old(mem)@
            &&& vector == VECTOR_TIMER ==> final(st).ticks == old(st).ticks + 1
                && final(st).speaker@ == crate::speaker::spec_speaker_tick(
                old(st).speaker@,
                ((old(st).ticks + 1) * 10) as u64,
            ) && final(st).process == old(st).process && final(st).scans == old(st).scans
                && final(mem)@ == old(mem)@ && *final(context) == *old(context)
            &&& vector == VECTOR_KEYBOARD ==> final(st).process == old(st).process && final(st).ticks == old(st).ticks && (match scan {
                Some(code) => {
                    &&& old(st).scans.count() < keyboard::SCAN_BUFFER_SIZE ==> final(st).scans.pending() == old(st).scans.pending().push(code)
                    &&& old(st).scans.count() == keyboard::SCAN_BUFFER_SIZE ==> final(st).scans
                        == old(st).scans
                }
                None => final(st).scans == old(st).scans,
            }) && final(mem)@ == old(mem)@ && *final(context) == *old(context)
            &&& vector == VECTOR_SYSCALL ==> spec_syscall_post(
                *old(context),
                *old(st),
                *final(st),
                old(mem)@,
                final(mem)@,
                final(context).eax,
            ) && *final(context) == (InterruptContext {
                eax: final(context).eax,
                ..*old(context)
            })
        }),
{
    let vector = context.interrupt_number;
    if vector == VECTOR_TIMER {
        pit_handler(context, st);
    } else if vector == VECTOR_KEYBOARD {
        keyboard_handler(context, st, scan);
    } else if vector == VECTOR_SYSCALL {
        syscall::syscall_handler(context, st, mem);
    }
}

} // verus!
