//! The segment descriptor table and the task-state record: the
//! hardware-defined bit layouts that set up the CPU's privilege rings.
//!
//! The privileged instructions that load the table register and reload
//! the segment registers are hardware outside this crate; what is
//! verified is that every descriptor's encoding matches the CPU's
//! format, field by field.

use vstd::prelude::*;

verus! {

/// A descriptor privilege level: the ring a descriptor belongs to.
#[derive(Clone, Copy, Debug, PartialEq, Eq, Structural)]
pub enum DPL {
    Ring0,
    Ring1,
    Ring2,
    Ring3,
}

impl DPL {
    /// The two-bit hardware value of the ring.
    pub open spec fn spec_value(self) -> u64 {
        match self {
            DPL::Ring0 => 0,
            DPL::Ring1 => 1,
            DPL::Ring2 => 2,
            DPL::Ring3 => 3,
        }
    }

    /// The two-bit hardware value of the ring.
    pub fn value(self) -> (v: u64)
        ensures
            v == self.spec_value(),
    {
        match self {
            DPL::Ring0 => 0,
            DPL::Ring1 => 1,
            DPL::Ring2 => 2,
            DPL::Ring3 => 3,
        }
    }
}

/// Size of one descriptor in bytes.
pub const GDT_ENTRY_SIZE: usize = 8;

/// Number of descriptors of the table.
pub const GDT_ENTRIES: usize = 6;

/// Selector of the ring-0 code segment.
pub const KERNEL_CODE_SEGMENT: usize = 8;

/// Selector of the ring-0 data segment.
pub const KERNEL_DATA_SEGMENT: usize = 16;

/// Selector of the ring-3 code segment.
pub const USER_CODE_SEGMENT: usize = 24;

/// Selector of the ring-3 data segment.
pub const USER_DATA_SEGMENT: usize = 32;

/// Selector of the task-state descriptor.
pub const TSS_SEGMENT: usize = 40;

/// Size in bytes of the task-state record.
pub const TSS_SIZE: usize = 104;

/// One segment descriptor, packed into the CPU's 64-bit format.
#[derive(Clone, Copy, Debug, PartialEq, Eq, Structural)]
pub struct GDTEntry(pub u64);

/// The 20-bit limit a descriptor encodes.
pub open spec fn desc_limit(d: u64) -> u64 {
    (d & 0xFFFF) | (((d >> 48) & 0xF) << 16)
}

/// The 32-bit base address a descriptor encodes.
pub open spec fn desc_base(d: u64) -> u64 {
    ((d >> 16) & 0xFFFFFF) | (((d >> 56) & 0xFF) << 24)
}

/// The four type bits of a descriptor.
pub open spec fn desc_type(d: u64) -> u64 {
    (d >> 40) & 0xF
}

/// The descriptor-type bit: set for a code or data segment, clear for a
/// system descriptor such as the task-state one.
pub open spec fn desc_s(d: u64) -> u64 {
    (d >> 44) & 1
}

/// The two privilege bits of a descriptor.
pub open spec fn desc_dpl(d: u64) -> u64 {
    (d >> 45) & 3
}

/// The present bit of a descriptor.
pub open spec fn desc_present(d: u64) -> u64 {
    (d >> 47) & 1
}

/// The available-to-software bit of a descriptor.
pub open spec fn desc_avl(d: u64) -> u64 {
    (d >> 52) & 1
}

/// The long-mode bit of a descriptor; clear for 32-bit segments.
pub open spec fn desc_long(d: u64) -> u64 {
    (d >> 53) & 1
}

/// The operation-size bit of a descriptor: set for a 32-bit segment.
pub open spec fn desc_db(d: u64) -> u64 {
    (d >> 54) & 1
}

/// The granularity bit of a descriptor.
pub open spec fn desc_granularity(d: u64) -> u64 {
    (d >> 55) & 1
}

impl GDTEntry {
    /// Packs a flat segment descriptor: every field lands in its
    /// hardware slot.
    fn new_segment(base: u32, limit: u32, typ: u8, dpl: DPL, granularity: bool) -> (r: GDTEntry)
        requires
            limit < 0x100000,
            typ < 16,
        ensures
            desc_limit(r.0) == limit,
            desc_base(r.0) == base,
            desc_type(r.0) == typ,
            desc_s(r.0) == 1,
            desc_dpl(r.0) == dpl.spec_value(),
            desc_present(r.0) == 1,
            desc_avl(r.0) == 0,
            desc_long(r.0) == 0,
            desc_db(r.0) == 1,
            desc_granularity(r.0) == if granularity { 1int } else { 0int },
    {
        let gran: u64 = if granularity { 1 } else { 0 };
        let dplv = dpl.value();
        let d: u64 = (limit as u64 & 0xFFFF) | ((base as u64 & 0xFFFFFF) << 16) | ((
        typ as u64) << 40) | (1u64 << 44) | (dplv << 45) | (1u64 << 47) | (((limit as u64 >> 16)
            & 0xF) << 48) | (1u64 << 54) | (gran << 55) | (((base as u64 >> 24) & 0xFF) << 56);
        proof {
            let b = base as u64;
            let l = limit as u64;
            let t = typ as u64;
            assert(l < 0x100000 && t < 16 && dplv < 4 && gran < 2 && b <= 0xFFFF_FFFF ==> {
                let e = (l & 0xFFFF) | ((b & 0xFFFFFF) << 16) | (t << 40) | (1u64 << 44) | (dplv
                    << 45) | (1u64 << 47) | (((l >> 16) & 0xF) << 48) | (1u64 << 54) | (gran << 55)
                    | (((b >> 24) & 0xFF) << 56);
                desc_limit(e) == l && desc_base(e) == b && desc_type(e) == t && desc_s(e) == 1
                    && desc_dpl(e) == dplv && desc_present(e) == 1 && desc_avl(e) == 0
                    && desc_long(e) == 0 && desc_db(e) == 1 && desc_granularity(e) == gran
            }) by (bit_vector);
        }
        GDTEntry(d)
    }

    /// A flat code segment of the given ring.
    pub fn new_code_segment(base: u32, limit: u32, dpl: DPL, granularity: bool) -> (r: GDTEntry)
        requires
            limit < 0x100000,
        ensures
            desc_limit(r.0) == limit,
            desc_base(r.0) == base,
            desc_type(r.0) == 0xA,
            desc_s(r.0) == 1,
            desc_dpl(r.0) == dpl.spec_value(),
            desc_present(r.0) == 1,
            desc_avl(r.0) == 0,
            desc_long(r.0) == 0,
            desc_db(r.0) == 1,
            desc_granularity(r.0) == if granularity { 1int } else { 0int },
    {
        GDTEntry::new_segment(base, limit, 0xA, dpl, granularity)
    }

    /// A flat data segment of the given ring.
    pub fn new_data_segment(base: u32, limit: u32, dpl: DPL, granularity: bool) -> (r: GDTEntry)
        requires
            limit < 0x100000,
        ensures
            desc_limit(r.0) == limit,
            desc_base(r.0) == base,
            desc_type(r.0) == 0x2,
            desc_s(r.0) == 1,
            desc_dpl(r.0) == dpl.spec_value(),
            desc_present(r.0) == 1,
            desc_avl(r.0) == 0,
            desc_long(r.0) == 0,
            desc_db(r.0) == 1,
            desc_granularity(r.0) == if granularity { 1int } else { 0int },
    {
        GDTEntry::new_segment(base, limit, 0x2, dpl, granularity)
    }

    /// The task-state descriptor: an available 32-bit task-state
    /// segment whose limit is the record's size less one and whose base
    /// carries the record's whole address, split over the two base
    /// fields of the descriptor format.
    pub fn new_tss_segment(base: u32) -> (r: GDTEntry)
        ensures
            desc_limit(r.0) == TSS_SIZE - 1,
            desc_base(r.0) == base,
            desc_type(r.0) == 0x9,
            desc_s(r.0) == 0,
            desc_dpl(r.0) == 0,
            desc_present(r.0) == 1,
    {
        let d: u64 = ((TSS_SIZE - 1) as u64) | ((base as u64 & 0xFFFFFF) << 16) | (0x9u64 << 40)
            | (1u64 << 47) | (((base as u64 >> 24) & 0xFF) << 56);
        proof {
            let b = base as u64;
            assert(b <= 0xFFFF_FFFF ==> {
                let e = 0x67u64 | ((b & 0xFFFFFF) << 16) | (0x9u64 << 40) | (1u64 << 47) | (((b
                    >> 24) & 0xFF) << 56);
                desc_limit(e) == 0x67 && desc_base(e) == b && desc_type(e) == 0x9 && desc_s(e)
                    == 0 && desc_dpl(e) == 0 && desc_present(e) == 1
            }) by (bit_vector);
        }
        GDTEntry(d)
    }
}

/// The task-state record: the hardware block that names the ring-0
/// stack to switch to whenever privilege rises through a gate.
#[derive(Clone, Copy, Debug, PartialEq, Eq, Structural)]
pub struct TSSEntry {
    pub prev_tss: u32,
    /// The stack pointer loaded on a change to ring 0.
    pub esp0: u32,
    /// The stack segment loaded on a change to ring 0.
    pub ss0: u32,
    pub esp1: u32,
    pub ss1: u32,
    pub esp2: u32,
    pub ss2: u32,
    pub cr3: u32,
    pub eip: u32,
    pub eflags: u32,
    pub eax: u32,
    pub ecx: u32,
    pub edx: u32,
    pub ebx: u32,
    pub esp: u32,
    pub ebp: u32,
    pub esi: u32,
    pub edi: u32,
    pub es: u32,
    pub cs: u32,
    pub ss: u32,
    pub ds: u32,
    pub fs: u32,
    pub gs: u32,
    pub ldt: u32,
    pub trap: u16,
    pub iomap_base: u16,
}

impl TSSEntry {
    /// An all-zero record.
    pub fn new() -> (r: TSSEntry)
        ensures
            r == (TSSEntry {
                prev_tss: 0,
                esp0: 0,
                ss0: 0,
                esp1: 0,
                ss1: 0,
                esp2: 0,
                ss2: 0,
                cr3: 0,
                eip: 0,
                eflags: 0,
                eax: 0,
                ecx: 0,
                edx: 0,
                ebx: 0,
                esp: 0,
                ebp: 0,
                esi: 0,
                edi: 0,
                es: 0,
                cs: 0,
                ss: 0,
                ds: 0,
                fs: 0,
                gs: 0,
                ldt: 0,
                trap: 0,
                iomap_base: 0,
            }),
    {
        TSSEntry {
            prev_tss: 0,
            esp0: 0,
            ss0: 0,
            esp1: 0,
            ss1: 0,
            esp2: 0,
            ss2: 0,
            cr3: 0,
            eip: 0,
            eflags: 0,
            eax: 0,
            ecx: 0,
            edx: 0,
            ebx: 0,
            esp: 0,
            ebp: 0,
            esi: 0,
            edi: 0,
            es: 0,
            cs: 0,
            ss: 0,
            ds: 0,
            fs: 0,
            gs: 0,
            ldt: 0,
            trap: 0,
            iomap_base: 0,
        }
    }

    /// The record the kernel boots with: every privilege elevation
    /// lands on the kernel data segment and the given stack pointer;
    /// every other field stays zero.
    pub fn for_kernel_stack(esp0: u32) -> (r: TSSEntry)
        ensures
            r == (TSSEntry {
                ss0: KERNEL_DATA_SEGMENT as u32,
                esp0,
                prev_tss: 0,
                esp1: 0,
                ss1: 0,
                esp2: 0,
                ss2: 0,
                cr3: 0,
                eip: 0,
                eflags: 0,
                eax: 0,
                ecx: 0,
                edx: 0,
                ebx: 0,
                esp: 0,
                ebp: 0,
                esi: 0,
                edi: 0,
                es: 0,
                cs: 0,
                ss: 0,
                ds: 0,
                fs: 0,
                gs: 0,
                ldt: 0,
                trap: 0,
                iomap_base: 0,
            }),
    {
        let mut tss = TSSEntry::new();
        tss.ss0 = KERNEL_DATA_SEGMENT as u32;
        tss.esp0 = esp0;
        tss
    }
}

/// The value loaded into the descriptor-table register: the table's
/// last byte offset and its address.
#[derive(Clone, Copy, Debug, PartialEq, Eq, Structural)]
pub struct GDTR {
    pub limit: u16,
    pub base: u32,
}

/// The selector of the `i`-th descriptor: its byte offset in the table.
pub open spec fn spec_selector(i: int) -> int {
    i * (GDT_ENTRY_SIZE as int)
}

/// The selector of the `i`-th descriptor.
pub fn selector(i: usize) -> (r: u16)
    requires
        i < GDT_ENTRIES,
    ensures
        r == spec_selector(i as int),
{
    (i * GDT_ENTRY_SIZE) as u16
}

/// Builds the boot descriptor table: the null descriptor, flat ring-0
/// and ring-3 code and data segments over the whole address space, and
/// the task-state descriptor pointing at the given record address.
pub fn build_gdt(tss_base: u32) -> (r: Vec<GDTEntry>)
    ensures
        r@.len() == GDT_ENTRIES,
        r@[0].0 == 0,
        desc_type(r@[1].0) == 0xA && desc_dpl(r@[1].0) == 0,
        desc_type(r@[2].0) == 0x2 && desc_dpl(r@[2].0) == 0,
        desc_type(r@[3].0) == 0xA && desc_dpl(r@[3].0) == 3,
        desc_type(r@[4].0) == 0x2 && desc_dpl(r@[4].0) == 3,
        forall|i: int| 1 <= i <= 4 ==> desc_base(#[trigger] r@[i].0) == 0 && desc_limit(r@[i].0)
            == 0xFFFFF && desc_present(r@[i].0) == 1 && desc_s(r@[i].0) == 1 && desc_avl(r@[i].0)
            == 0 && desc_long(r@[i].0) == 0 && desc_db(r@[i].0) == 1 && desc_granularity(r@[i].0)
            == 1,
        desc_type(r@[5].0) == 0x9 && desc_limit(r@[5].0) == TSS_SIZE - 1 && desc_base(r@[5].0)
            == tss_base && desc_present(r@[5].0) == 1 && desc_dpl(r@[5].0) == 0,
{
    let mut gdt: Vec<GDTEntry> = Vec::new();
    gdt.push(GDTEntry(0));
    gdt.push(GDTEntry::new_code_segment(0, 0xFFFFF, DPL::Ring0, true));
    gdt.push(GDTEntry::new_data_segment(0, 0xFFFFF, DPL::Ring0, true));
    gdt.push(GDTEntry::new_code_segment(0, 0xFFFFF, DPL::Ring3, true));
    gdt.push(GDTEntry::new_data_segment(0, 0xFFFFF, DPL::Ring3, true));
    gdt.push(GDTEntry::new_tss_segment(tss_base));
    gdt
}

/// The register value for the boot table: six descriptors of eight
/// bytes, less one for the hardware's inclusive limit.
pub fn gdtr_for(base: u32) -> (r: GDTR)
    ensures
        r.limit == GDT_ENTRIES * GDT_ENTRY_SIZE - 1,
        r.base == base,
{
    GDTR { limit: (GDT_ENTRIES * GDT_ENTRY_SIZE - 1) as u16, base }
}

/// The table's layout: the selector of each of the six descriptors is
/// its index times the descriptor size, and the task-state descriptor
/// encodes a limit of the task-state record's size less one, whatever
/// address the record lives at.
pub proof fn lemma_segment_table_layout()
    ensures
        forall|i: int| 0 <= i < GDT_ENTRIES ==> #[trigger] spec_selector(i) == i * 8,
        spec_selector(1) == KERNEL_CODE_SEGMENT,
        spec_selector(2) == KERNEL_DATA_SEGMENT,
        spec_selector(3) == USER_CODE_SEGMENT,
        spec_selector(4) == USER_DATA_SEGMENT,
        spec_selector(5) == TSS_SEGMENT,
{
}

} // verus!
