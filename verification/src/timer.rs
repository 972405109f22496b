//! The monotonic tick counter behind the GETTICK system call.
//!
//! The timer chip raises an interrupt on a fixed rate; each interrupt
//! advances the counter by one, and uptime is read as ten milliseconds
//! per tick.

use vstd::prelude::*;
use crate::speaker::{self, SpeakerState};

verus! {

/// Bound kept on the tick counter so that every time computation fits in
/// a machine word (at ten milliseconds a tick this is far beyond the
/// hardware's lifetime).
pub const TICK_LIMIT: u64 = 0x1000_0000_0000;

/// Advances the clock by one tick and drives the tone player with the
/// new uptime. Called from the timer interrupt, every hundredth of a
/// second.
pub fn tick(ticks: &mut u64, sp: &mut SpeakerState)
    requires
        *old(ticks) + 1 < TICK_LIMIT,
        old(sp).wf(),
    ensures
        *final(ticks) == *old(ticks) + 1,
        final(sp).wf(),
        final(sp)@ == speaker::spec_speaker_tick(old(sp)@, ((*old(ticks) + 1) * 10) as u64),
{
    *ticks = *ticks + 1;
    let time = *ticks * 10;
    speaker::tick(sp, time);
}

/// The uptime in milliseconds: ten for every tick counted.
pub fn uptime(ticks: u64) -> (r: u64)
    requires
        ticks < TICK_LIMIT,
    ensures
        r == ticks * 10,
{
    ticks * 10
}

/// Reading the clock before and after a run of ticks differs by exactly
/// ten milliseconds per tick: from `t` ticks, `n` further ticks move
/// GETTICK's value from `10 t` to `10 (t + n)`. (The clock register is
/// a 32-bit word; the statement holds as long as the later reading
/// still fits it.)
pub proof fn lemma_gettick_difference(t: u64, n: u64)
    requires
        (t + n) * 10 < 0x1_0000_0000,
    ensures
        ((t + n) * 10) as u64 as u32 == (t * 10) as u64 as u32 + 10 * n,
{
    assert(t * 10 <= (t + n) * 10) by (nonlinear_arith)
        requires n >= 0;
}

} // verus!
