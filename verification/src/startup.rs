//! Boot-time computations: which memory range the allocator may use,
//! and which executable the boot command line names.
//!
//! The boot handoff itself (magic check, module blob, the raw map the
//! boot loader leaves behind) is an opaque external input; it reaches
//! this module as plain values.

use vstd::prelude::*;

verus! {

/// One entry of the boot loader's memory map, as plain values.
#[derive(Clone, Copy, Debug, PartialEq, Eq, Structural)]
pub struct MemRegion {
    /// First address of the region.
    pub base: u64,
    /// Length of the region in bytes.
    pub length: u64,
    /// Whether the region is usable memory.
    pub available: bool,
}

/// The least base address of an available region, or nothing when none
/// is available.
pub open spec fn spec_min_base(regions: Seq<MemRegion>) -> Option<int>
    decreases regions.len(),
{
    if regions.len() == 0 {
        None
    } else {
        let rest = spec_min_base(regions.drop_first());
        if regions[0].available {
            match rest {
                Some(m) => Some(vstd::math::min(regions[0].base as int, m)),
                None => Some(regions[0].base as int),
            }
        } else {
            rest
        }
    }
}

/// The greatest end address of an available region, or nothing when
/// none is available.
pub open spec fn spec_max_end(regions: Seq<MemRegion>) -> Option<int>
    decreases regions.len(),
{
    if regions.len() == 0 {
        None
    } else {
        let rest = spec_max_end(regions.drop_first());
        if regions[0].available {
            match rest {
                Some(m) => Some(vstd::math::max(regions[0].base + regions[0].length, m)),
                None => Some(regions[0].base + regions[0].length),
            }
        } else {
            rest
        }
    }
}

/// `x` rounded up to the next multiple of eight.
pub open spec fn spec_align8(x: int) -> int {
    x + ((8 - x % 8) % 8)
}

/// Both bounds exist together, and they stay within the address word.
proof fn lemma_bounds_range(regions: Seq<MemRegion>)
    ensures
        spec_min_base(regions) is Some <==> spec_max_end(regions) is Some,
        spec_min_base(regions) matches Some(m) ==> 0 <= m <= u64::MAX,
        spec_max_end(regions) matches Some(m) ==> 0 <= m <= u64::MAX + u64::MAX,
    decreases regions.len(),
{
    if regions.len() > 0 {
        lemma_bounds_range(regions.drop_first());
    }
}

/// The memory range handed to the allocator: from the least base of an
/// available region — raised to the kernel image's end and aligned up
/// to eight bytes — to the greatest end of an available region.
/// Nothing comes back when the map names no available region.
pub fn memory_bounds(regions: &Vec<MemRegion>, kernel_end: u64) -> (r: Option<(u64, u64)>)
    requires
        forall|i: int| 0 <= i < regions@.len() ==> (#[trigger] regions@[i]).base
            + regions@[i].length <= u64::MAX,
        forall|i: int| 0 <= i < regions@.len() ==> (#[trigger] regions@[i]).base + 7 <= u64::MAX,
        kernel_end + 7 <= u64::MAX,
    ensures
        r is Some <==> spec_min_base(regions@) is Some,
        r matches Some(bounds) ==> bounds.0 == spec_align8(
            vstd::math::max(kernel_end as int, spec_min_base(regions@)->0),
        ) && bounds.1 == spec_max_end(regions@)->0,
{
    proof {
        lemma_bounds_range(regions@);
    }
    let n = regions.len();
    let mut min_base: Option<u64> = None;
    let mut max_end: Option<u64> = None;
    let mut k: usize = n;
    while k > 0
        invariant
            k <= n,
            n == regions@.len(),
            forall|i: int| 0 <= i < n ==> (#[trigger] regions@[i]).base + regions@[i].length
                <= u64::MAX,
            forall|i: int| 0 <= i < n ==> (#[trigger] regions@[i]).base + 7 <= u64::MAX,
            match min_base {
                Some(m) => spec_min_base(regions@.skip(k as int)) == Some(m as int) && m + 7
                    <= u64::MAX,
                None => spec_min_base(regions@.skip(k as int)) is None,
            },
            match max_end {
                Some(m) => spec_max_end(regions@.skip(k as int)) == Some(m as int),
                None => spec_max_end(regions@.skip(k as int)) is None,
            },
        decreases k,
    {
        k -= 1;
        proof {
            assert(regions@.skip(k as int).drop_first() =~= regions@.skip(k + 1));
        }
        let region = regions[k];
        if region.available {
            min_base = Some(
                match min_base {
                    Some(m) => if region.base < m {
                        region.base
                    } else {
                        m
                    },
                    None => region.base,
                },
            );
            max_end = Some(
                match max_end {
                    Some(m) => if region.base + region.length > m {
                        region.base + region.length
                    } else {
                        m
                    },
                    None => region.base + region.length,
                },
            );
        }
    }
    proof {
        assert(regions@.skip(0) =~= regions@);
    }
    match (min_base, max_end) {
        (Some(lo), Some(hi)) => {
            let raised = if kernel_end > lo {
                kernel_end
            } else {
                lo
            };
            let aligned = raised + ((8 - raised % 8) % 8);
            Some((aligned, hi))
        }
        _ => None,
    }
}

/// The executable the boot command line names: the path after the
/// leading slash; a command line that does not start with a slash
/// names nothing.
pub fn executable_from_cmdline(cmdline: &Vec<u8>) -> (r: Option<Vec<u8>>)
    ensures
        cmdline@.len() > 0 && cmdline@[0] == 47 ==> (r matches Some(name) && name@
            == cmdline@.subrange(1, cmdline@.len() as int)),
        !(cmdline@.len() > 0 && cmdline@[0] == 47) ==> r is None,
{
    if cmdline.len() > 0 && cmdline[0] == 47 {
        Some(crate::strings::copy_range(cmdline, 1, cmdline.len()))
    } else {
        None
    }
}

} // verus!
