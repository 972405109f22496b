//! The kernel's process-wide state, initialized once at boot and handed
//! explicitly to every interrupt and system-call handler.
//!
//! Hardware vectors address fixed memory, so the running kernel keeps
//! exactly one value of this type; the handlers reach it through one
//! well-known handle rather than implicit global lookup.

use vstd::prelude::*;
use crate::keyboard::ScanBuffer;
use crate::kfs::Kfs;
use crate::process::Process;
use crate::speaker::SpeakerState;
use crate::timer::TICK_LIMIT;

verus! {

/// Everything the handlers read and write: the tick counter, the
/// keyboard FIFO, the tone player, the resident process, the
/// filesystem, and the byte streams handed to the two output sinks.
#[derive(Debug)]
pub struct KernelState {
    /// Timer ticks counted since boot.
    pub ticks: u64,
    /// Scan codes queued by the keyboard interrupt.
    pub scans: ScanBuffer,
    /// The tone player.
    pub speaker: SpeakerState,
    /// The resident process.
    pub process: Process,
    /// The filesystem handed over at boot.
    pub fs: Kfs,
    /// Bytes sent to the serial sink.
    pub serial_out: Vec<u8>,
    /// Bytes sent to the display sink.
    pub vga_out: Vec<u8>,
}

impl KernelState {
    /// Every component is well formed and the clock stays within its
    /// working range.
    pub open spec fn wf(&self) -> bool {
        &&& self.scans.wf()
        &&& self.speaker.wf()
        &&& self.process.wf()
        &&& self.ticks < TICK_LIMIT
        &&& match self.fs.superblock {
            Some(sb) => sb.wf(),
            None => true,
        }
    }

    /// The boot state: clock at zero, no scan codes, a silent speaker,
    /// a process with no open handle, no filesystem yet, and empty
    /// output streams.
    pub fn new() -> (st: KernelState)
        ensures
            st.wf(),
            st.ticks == 0,
            st.scans.count() == 0,
            st.scans.pending() == Seq::<u8>::empty(),
            st.speaker.melody is None,
            forall|i: int| 0 <= i < st.process.files@.len() ==> (#[trigger] st.process.files@[i]) is None,
            st.fs.superblock is None,
            st.serial_out@ == Seq::<u8>::empty(),
            st.vga_out@ == Seq::<u8>::empty(),
    {
        KernelState {
            ticks: 0,
            scans: ScanBuffer::new(),
            speaker: SpeakerState::new(),
            process: Process::new(),
            fs: Kfs::invalid(),
            serial_out: Vec::new(),
            vga_out: Vec::new(),
        }
    }
}

/// The two states agree on everything but the process.
pub open spec fn same_except_process(a: KernelState, b: KernelState) -> bool {
    &&& b.ticks == a.ticks
    &&& b.scans == a.scans
    &&& b.speaker == a.speaker
    &&& b.fs == a.fs
    &&& b.serial_out == a.serial_out
    &&& b.vga_out == a.vga_out
}

/// The two states agree on everything but the tone player.
pub open spec fn same_except_speaker(a: KernelState, b: KernelState) -> bool {
    &&& b.ticks == a.ticks
    &&& b.scans == a.scans
    &&& b.process == a.process
    &&& b.fs == a.fs
    &&& b.serial_out == a.serial_out
    &&& b.vga_out == a.vga_out
}

/// The two states agree on everything but the keyboard FIFO.
pub open spec fn same_except_scans(a: KernelState, b: KernelState) -> bool {
    &&& b.ticks == a.ticks
    &&& b.speaker == a.speaker
    &&& b.process == a.process
    &&& b.fs == a.fs
    &&& b.serial_out == a.serial_out
    &&& b.vga_out == a.vga_out
}

/// The two states agree on everything but the output streams.
pub open spec fn same_except_outputs(a: KernelState, b: KernelState) -> bool {
    &&& b.ticks == a.ticks
    &&& b.scans == a.scans
    &&& b.speaker == a.speaker
    &&& b.process == a.process
    &&& b.fs == a.fs
}

} // verus!
