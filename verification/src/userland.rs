//! Bringing an executable image into ring-3 execution: the loader that
//! copies an object's loadable segments into one allocation, and the
//! launcher frame for the privilege drop.
//!
//! The allocation itself, the mapping of the image at its base address,
//! and the return-from-interrupt instruction that performs the
//! ring-0 to ring-3 transition are platform steps outside this crate;
//! verified here are the bytes the image must hold and the exact frame
//! the transition consumes.

use vstd::prelude::*;
use crate::elf::{spec_elf_phdrs, Elf, Elf32ProgramHeader, Error, PT_LOAD};
use crate::gdt::{USER_CODE_SEGMENT, USER_DATA_SEGMENT};
use crate::io::SeekFrom;
use crate::kfs::reader::{spec_read_bytes, DataBlockReader, ReaderView};
use crate::syscall::{spec_splice, write_at};

verus! {

/// Whether a segment is brought into memory.
pub open spec fn spec_is_load(s: Elf32ProgramHeader) -> bool {
    s.typ & PT_LOAD != 0
}

/// The bytes the file supplies for a segment: `filesz` bytes at the
/// segment's file offset, or whatever of them the file still holds.
pub open spec fn spec_seg_bytes(contents: Seq<u8>, s: Elf32ProgramHeader) -> Seq<u8> {
    spec_read_bytes(
        ReaderView {
            contents,
            offset: vstd::math::min(s.offset as int, contents.len() as int),
        },
        s.filesz as int,
    )
}

/// The image after the segments are copied in, front to back: each
/// loadable segment's file bytes land at its virtual address; the rest
/// of the buffer keeps what it held (the loader starts from all
/// zeroes, so the tail of each segment up to its memory size stays
/// zero).
pub open spec fn spec_load_segments(
    segs: Seq<Elf32ProgramHeader>,
    contents: Seq<u8>,
    buf: Seq<u8>,
) -> Seq<u8>
    decreases segs.len(),
{
    if segs.len() == 0 {
        buf
    } else {
        let s = segs[0];
        let buf2 = if spec_is_load(s) {
            spec_splice(buf, s.vaddr as int, spec_seg_bytes(contents, s))
        } else {
            buf
        };
        spec_load_segments(segs.drop_first(), contents, buf2)
    }
}

/// The image's total span: the greatest virtual end address of a
/// loadable segment.
pub open spec fn spec_image_end(segs: Seq<Elf32ProgramHeader>) -> int
    decreases segs.len(),
{
    if segs.len() == 0 {
        0
    } else {
        let rest = spec_image_end(segs.drop_first());
        if spec_is_load(segs[0]) {
            vstd::math::max(segs[0].vaddr + segs[0].memsz, rest)
        } else {
            rest
        }
    }
}

/// The image's required alignment: the greatest alignment of a
/// loadable segment.
pub open spec fn spec_image_align(segs: Seq<Elf32ProgramHeader>) -> int
    decreases segs.len(),
{
    if segs.len() == 0 {
        0
    } else {
        let rest = spec_image_align(segs.drop_first());
        if spec_is_load(segs[0]) {
            vstd::math::max(segs[0].align as int, rest)
        } else {
            rest
        }
    }
}

/// Whether any segment is loadable.
pub open spec fn spec_has_loadable(segs: Seq<Elf32ProgramHeader>) -> bool
    decreases segs.len(),
{
    if segs.len() == 0 {
        false
    } else {
        spec_is_load(segs[0]) || spec_has_loadable(segs.drop_first())
    }
}

/// Every loadable segment ends within the image's span.
proof fn lemma_image_end_bound(segs: Seq<Elf32ProgramHeader>, k: int)
    requires
        0 <= k < segs.len(),
        spec_is_load(segs[k]),
    ensures
        segs[k].vaddr + segs[k].memsz <= spec_image_end(segs),
        spec_image_end(segs) >= 0,
    decreases segs.len(),
{
    lemma_image_end_nonneg(segs);
    if k > 0 {
        lemma_image_end_bound(segs.drop_first(), k - 1);
    }
}

/// The image's span is never negative.
proof fn lemma_image_end_nonneg(segs: Seq<Elf32ProgramHeader>)
    ensures
        spec_image_end(segs) >= 0,
    decreases segs.len(),
{
    if segs.len() > 0 {
        lemma_image_end_nonneg(segs.drop_first());
    }
}

/// A loaded image, ready to launch: its bytes, laid out from the base
/// of its allocation, the entry-point offset, and the alignment the
/// allocation must honour.
#[derive(Debug)]
pub struct LoadedImage {
    /// The image's bytes, virtual address by virtual address.
    pub memory: Vec<u8>,
    /// Entry-point offset of the object.
    pub entry_point: u32,
    /// Required alignment of the allocation.
    pub align: u32,
}

/// Copies the object's loadable segments into one buffer spanning the
/// image: each segment's file bytes at its virtual address, and
/// explicit zeroes everywhere else — in particular over each segment's
/// tail between its file size and its memory size, which the file
/// never supplies.
pub fn load_into_memory(elf: &mut Elf) -> (r: Vec<u8>)
    requires
        old(elf).wf(),
        spec_has_loadable(spec_elf_phdrs(old(elf).reader@.contents)),
        spec_image_end(spec_elf_phdrs(old(elf).reader@.contents)) <= 0xFFFF_FFFF,
        forall|k: int|
            0 <= k < spec_elf_phdrs(old(elf).reader@.contents).len() && spec_is_load(
                #[trigger] spec_elf_phdrs(old(elf).reader@.contents)[k],
            ) ==> spec_elf_phdrs(old(elf).reader@.contents)[k].filesz <= spec_elf_phdrs(
                old(elf).reader@.contents,
            )[k].memsz,
    ensures
        final(elf).wf(),
        final(elf).reader@.contents == old(elf).reader@.contents,
        r@.len() == spec_image_end(spec_elf_phdrs(old(elf).reader@.contents)),
        r@ == spec_load_segments(
            spec_elf_phdrs(old(elf).reader@.contents),
            old(elf).reader@.contents,
            Seq::new(spec_image_end(spec_elf_phdrs(old(elf).reader@.contents)) as nat, |i: int| 0u8),
        ),
{
    let ghost contents = elf.reader@.contents;
    let ghost phdrs_g = spec_elf_phdrs(contents);
    let headers = elf.program_headers();
    let n = headers.len();
    proof {
        lemma_image_end_nonneg(phdrs_g);
    }
    let mut end: u64 = 0;
    let mut k: usize = n;
    while k > 0
        invariant
            k <= n,
            n == headers@.len(),
            headers@ == phdrs_g,
            end == spec_image_end(headers@.skip(k as int)),
            spec_image_end(phdrs_g) <= 0xFFFF_FFFF,
        decreases k,
    {
        k -= 1;
        proof {
            assert(headers@.skip(k as int).drop_first() =~= headers@.skip(k + 1));
            lemma_image_end_nonneg(headers@.skip(k + 1));
            lemma_image_end_skip_bound(headers@, k as int);
        }
        let h = headers[k];
        if h.typ & PT_LOAD != 0 {
            let seg_end = h.vaddr as u64 + h.memsz as u64;
            if seg_end > end {
                end = seg_end;
            }
        }
    }
    proof {
        assert(headers@.skip(0) =~= headers@);
    }
    let mut buf: Vec<u8> = vec![0u8; end as usize];
    proof {
        assert(buf@ =~= Seq::new(spec_image_end(phdrs_g) as nat, |i: int| 0u8));
        assert(spec_load_segments(headers@.skip(0), contents, buf@) == spec_load_segments(
            headers@,
            contents,
            buf@,
        ));
    }
    let ghost zeros = buf@;
    let mut k: usize = 0;
    while k < n
        invariant
            k <= n,
            n == headers@.len(),
            headers@ == phdrs_g,
            elf.wf(),
            elf.reader@.contents == contents,
            forall|j: int|
                0 <= j < n && spec_is_load(#[trigger] headers@[j]) ==> headers@[j].filesz
                    <= headers@[j].memsz,
            buf@.len() == spec_image_end(phdrs_g),
            spec_load_segments(phdrs_g, contents, zeros) == spec_load_segments(
                headers@.skip(k as int),
                contents,
                buf@,
            ),
        decreases n - k,
    {
        let h = headers[k];
        proof {
            assert(headers@.skip(k as int)[0] == headers@[k as int]);
            assert(headers@.skip(k as int).drop_first() =~= headers@.skip(k + 1));
        }
        if h.typ & PT_LOAD != 0 {
            proof {
                lemma_image_end_bound(phdrs_g, k as int);
                elf.reader.lemma_wf_offset();
            }
            let _ = elf.reader.seek(SeekFrom::Start(h.offset as usize));
            let data = elf.reader.read(h.filesz as usize);
            write_at(&mut buf, h.vaddr as usize, &data);
            proof {
                assert(data@ =~= spec_seg_bytes(contents, h));
            }
        }
        k += 1;
    }
    proof {
        assert(headers@.skip(n as int) =~= Seq::<Elf32ProgramHeader>::empty());
    }
    buf
}

/// A tail of the table never spans more than the whole table.
proof fn lemma_image_end_skip_bound(segs: Seq<Elf32ProgramHeader>, k: int)
    requires
        0 <= k <= segs.len(),
    ensures
        spec_image_end(segs.skip(k)) <= spec_image_end(segs),
    decreases k,
{
    lemma_image_end_nonneg(segs);
    if k > 0 {
        lemma_image_end_skip_bound(segs.drop_first(), k - 1);
        assert(segs.skip(k) =~= segs.drop_first().skip(k - 1));
        lemma_image_end_nonneg(segs.skip(k));
    } else {
        assert(segs.skip(0) =~= segs);
    }
}

/// The synthetic frame the privilege drop consumes: the ring-3 stack
/// and code selectors (each the base selector with the ring-3 bits),
/// the target stack pointer, and the target instruction pointer. (The
/// flags word the hardware also pushes is read from the running CPU,
/// outside this crate.)
#[derive(Clone, Copy, Debug, PartialEq, Eq, Structural)]
pub struct LaunchFrame {
    /// The ring-3 stack segment selector.
    pub ss: u16,
    /// The target stack pointer.
    pub esp: u32,
    /// The ring-3 code segment selector.
    pub cs: u16,
    /// The target instruction pointer.
    pub eip: u32,
}

/// Builds the frame for the one sanctioned ring-0 to ring-3
/// transition.
pub fn launch_frame(entry: u32, stack_top: u32) -> (r: LaunchFrame)
    ensures
        r.cs == USER_CODE_SEGMENT as u16 | 3,
        r.ss == USER_DATA_SEGMENT as u16 | 3,
        r.cs == 0x1B,
        r.ss == 0x23,
        r.eip == entry,
        r.esp == stack_top,
{
    proof {
        assert(24u16 | 3 == 0x1B && 32u16 | 3 == 0x23) by (bit_vector);
    }
    LaunchFrame {
        ss: (USER_DATA_SEGMENT as u16) | 3,
        esp: stack_top,
        cs: (USER_CODE_SEGMENT as u16) | 3,
        eip: entry,
    }
}

/// Decodes and loads an executable, and builds its launch frame: the
/// image's bytes to map at `base_address`, and the frame whose
/// instruction pointer is the image's entry point over that base.
/// What remains to the platform is the allocation, the mapping, and
/// the return-from-interrupt itself.
pub fn execute_file(reader: DataBlockReader, base_address: u32, stack_top: u32) -> (r: Result<
    (LoadedImage, LaunchFrame),
    Error,
>)
    requires
        reader.wf(),
        ({
            let contents = reader@.contents;
            let phdrs = spec_elf_phdrs(contents);
            (contents.len() >= crate::elf::ELF32_HEADER_SIZE && crate::elf::spec_header_valid(
                crate::elf::spec_parse_header(contents.take(crate::elf::ELF32_HEADER_SIZE as int)),
                contents.len() as int,
            )) ==> {
                &&& spec_has_loadable(phdrs)
                &&& spec_image_end(phdrs) <= 0xFFFF_FFFF
                &&& forall|k: int|
                    0 <= k < phdrs.len() && spec_is_load(#[trigger] phdrs[k]) ==> phdrs[k].filesz
                        <= phdrs[k].memsz
                &&& base_address + crate::elf::spec_parse_header(
                    contents.take(crate::elf::ELF32_HEADER_SIZE as int),
                ).entry <= u32::MAX
            }
        }),
    ensures
        ({
            let contents = reader@.contents;
            let phdrs = spec_elf_phdrs(contents);
            let header = crate::elf::spec_parse_header(
                contents.take(crate::elf::ELF32_HEADER_SIZE as int),
            );
            &&& (r is Ok <==> contents.len() >= crate::elf::ELF32_HEADER_SIZE
                && crate::elf::spec_header_valid(header, contents.len() as int))
            &&& (r matches Ok((image, frame)) ==> image.memory@ == spec_load_segments(
                phdrs,
                contents,
                Seq::new(spec_image_end(phdrs) as nat, |i: int| 0u8),
            ) && image.entry_point == header.entry && image.align == spec_image_align(phdrs)
                && frame.eip == base_address + header.entry && frame.esp == stack_top && frame.cs
                == 0x1B && frame.ss == 0x23)
        }),
{
    let mut elf = match Elf::new(reader) {
        Ok(elf) => elf,
        Err(e) => {
            return Err(e);
        }
    };
    let memory = load_into_memory(&mut elf);
    let entry_point = elf.header.entry;
    let align = compute_align(&mut elf);
    let image = LoadedImage { memory, entry_point, align };
    let frame = launch_frame(base_address + entry_point, stack_top);
    Ok((image, frame))
}

/// The greatest alignment any loadable segment asks of the allocation.
pub fn compute_align(elf: &mut Elf) -> (r: u32)
    requires
        old(elf).wf(),
    ensures
        final(elf).wf(),
        final(elf).reader@.contents == old(elf).reader@.contents,
        r == spec_image_align(spec_elf_phdrs(old(elf).reader@.contents)),
{
    let ghost phdrs_g = spec_elf_phdrs(elf.reader@.contents);
    let headers = elf.program_headers();
    let n = headers.len();
    let mut align: u32 = 0;
    let mut k: usize = n;
    while k > 0
        invariant
            k <= n,
            n == headers@.len(),
            headers@ == phdrs_g,
            align == spec_image_align(headers@.skip(k as int)),
        decreases k,
    {
        k -= 1;
        proof {
            assert(headers@.skip(k as int).drop_first() =~= headers@.skip(k + 1));
            lemma_image_align_bounds(headers@.skip(k + 1));
        }
        let h = headers[k];
        if h.typ & PT_LOAD != 0 {
            if h.align > align {
                align = h.align;
            }
        }
    }
    proof {
        assert(headers@.skip(0) =~= headers@);
    }
    align
}

/// The greatest alignment fits the word it is read from.
proof fn lemma_image_align_bounds(segs: Seq<Elf32ProgramHeader>)
    ensures
        0 <= spec_image_align(segs) <= u32::MAX,
    decreases segs.len(),
{
    if segs.len() > 0 {
        lemma_image_align_bounds(segs.drop_first());
    }
}

} // verus!
