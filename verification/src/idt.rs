//! Interrupt-gate descriptors: the hardware-defined encoding that maps
//! a vector to an entry address, a code selector, and the least
//! privileged ring allowed to raise it.

use vstd::prelude::*;
use crate::gdt::DPL;

verus! {

/// Type bits of a 32-bit interrupt gate.
pub const IDT_INTERRUPT_GATE_32: u8 = 0b01110;

/// One interrupt gate, packed into the CPU's 64-bit format.
#[derive(Clone, Copy, Debug, PartialEq, Eq, Structural)]
pub struct IDTEntry(pub u64);

/// The 32-bit entry address a gate encodes.
pub open spec fn gate_offset(d: u64) -> u64 {
    (d & 0xFFFF) | (((d >> 48) & 0xFFFF) << 16)
}

/// The code selector a gate encodes.
pub open spec fn gate_selector(d: u64) -> u64 {
    (d >> 16) & 0xFFFF
}

/// The five type bits of a gate.
pub open spec fn gate_type(d: u64) -> u64 {
    (d >> 40) & 0x1F
}

/// The two privilege bits of a gate: the lowest ring that may call
/// through it.
pub open spec fn gate_dpl(d: u64) -> u64 {
    (d >> 45) & 3
}

/// The present bit of a gate.
pub open spec fn gate_present(d: u64) -> u64 {
    (d >> 47) & 1
}

impl IDTEntry {
    /// Packs a gate: every field lands in its hardware slot.
    fn new(typ: u8, handler: u32, segment: u16, dpl: DPL) -> (r: IDTEntry)
        requires
            typ < 32,
        ensures
            gate_offset(r.0) == handler,
            gate_selector(r.0) == segment,
            gate_type(r.0) == typ,
            gate_dpl(r.0) == dpl.spec_value(),
            gate_present(r.0) == 1,
    {
        let dplv = dpl.value();
        let d: u64 = (handler as u64 & 0xFFFF) | ((segment as u64) << 16) | ((typ as u64) << 40)
            | (dplv << 45) | (1u64 << 47) | (((handler as u64) >> 16) << 48);
        proof {
            let h = handler as u64;
            let s = segment as u64;
            let t = typ as u64;
            assert(h <= 0xFFFF_FFFF && s <= 0xFFFF && t < 32 && dplv < 4 ==> {
                let e = (h & 0xFFFF) | (s << 16) | (t << 40) | (dplv << 45) | (1u64 << 47) | ((h
                    >> 16) << 48);
                gate_offset(e) == h && gate_selector(e) == s && gate_type(e) == t && gate_dpl(e)
                    == dplv && gate_present(e) == 1
            }) by (bit_vector);
        }
        IDTEntry(d)
    }

    /// A 32-bit interrupt gate to the given entry address, through the
    /// given code selector, raisable from the given ring.
    pub fn new_interrupt_gate(handler: u32, segment: u16, dpl: DPL) -> (r: IDTEntry)
        ensures
            gate_offset(r.0) == handler,
            gate_selector(r.0) == segment,
            gate_type(r.0) == IDT_INTERRUPT_GATE_32,
            gate_dpl(r.0) == dpl.spec_value(),
            gate_present(r.0) == 1,
    {
        IDTEntry::new(IDT_INTERRUPT_GATE_32, handler, segment, dpl)
    }
}

/// The value loaded into the interrupt-table register: the table's last
/// byte offset and its address.
#[derive(Clone, Copy, Debug, PartialEq, Eq, Structural)]
pub struct IDTR {
    pub limit: u16,
    pub base: u32,
}

} // verus!
