//! The fixed system-call ABI and its dispatcher.
//!
//! User code raises the system-call vector with an operation code in
//! `eax` and up to three raw argument words in `ebx`, `ecx` and `edx`;
//! the dispatcher writes a single scalar result back into `eax`. Every
//! failure collapses to the one sentinel value: the ABI cannot
//! distinguish failure causes, and that ambiguity is preserved here.
//!
//! Pointer arguments index the user program's memory, which the caller
//! hands in as plain bytes. The dispatcher bounds-checks descriptor
//! numbers and the whence argument, but — as the ABI always has — it
//! does not validate that user-supplied buffer pointers and lengths
//! denote memory the program owns; the `requires` clauses record that
//! boundary.

use vstd::prelude::*;
use crate::interrupts::InterruptContext;
use crate::io::SeekFrom;
use crate::kernel::{
    same_except_outputs, same_except_process, same_except_scans, same_except_speaker, KernelState,
};
use crate::kfs::reader::{spec_read_advance, spec_read_bytes, DataBlockReader};
use crate::kfs::{spec_file_contents, Inode, InodeView};
use crate::process::{spec_first_free, MAX_FD};
use crate::speaker::{self, Tone};
use crate::strings::{bytes_eq, copy_range, cstr_at, spec_cstr, spec_strlen};
use crate::timer;

verus! {

/// Operation code of WRITE.
pub const SYSCALL_WRITE: u32 = 1;

/// Operation code of GETKEY.
pub const SYSCALL_GETKEY: u32 = 3;

/// Operation code of GETTICK.
pub const SYSCALL_GETTICK: u32 = 4;

/// Operation code of OPEN.
pub const SYSCALL_OPEN: u32 = 5;

/// Operation code of READ.
pub const SYSCALL_READ: u32 = 6;

/// Operation code of SEEK.
pub const SYSCALL_SEEK: u32 = 7;

/// Operation code of CLOSE.
pub const SYSCALL_CLOSE: u32 = 8;

/// Operation code of PLAYSOUND.
pub const SYSCALL_PLAYSOUND: u32 = 11;

/// The one failure value of the ABI: all bits set.
pub const SENTINEL: u32 = 0xFFFF_FFFF;

/// Whether an operation code belongs to the defined set.
pub open spec fn spec_known_opcode(op: u32) -> bool {
    op == SYSCALL_WRITE || op == SYSCALL_GETKEY || op == SYSCALL_GETTICK || op == SYSCALL_OPEN
        || op == SYSCALL_READ || op == SYSCALL_SEEK || op == SYSCALL_CLOSE
        || op == SYSCALL_PLAYSOUND
}

/// What WRITE does: the bytes go to both output sinks, unshortened,
/// and their count comes back.
pub open spec fn spec_write_post(pre: KernelState, post: KernelState, data: Seq<u8>, r: u32) -> bool {
    &&& same_except_outputs(pre, post)
    &&& post.serial_out@ == pre.serial_out@ + data
    &&& post.vga_out@ == pre.vga_out@ + data
    &&& r == data.len()
}

/// Copies the bytes to both output sinks and returns how many.
pub fn syscall_write(st: &mut KernelState, data: &Vec<u8>) -> (r: u32)
    requires
        old(st).wf(),
        data@.len() < 0x1_0000_0000,
    ensures
        final(st).wf(),
        spec_write_post(*old(st), *final(st), data@, r),
{
    let n = data.len();
    let mut c: usize = 0;
    while c < n
        invariant
            c <= n,
            n == data@.len(),
            same_except_outputs(*old(st), *st),
            st.wf(),
            st.serial_out@ == old(st).serial_out@ + data@.take(c as int),
            st.vga_out@ == old(st).vga_out@ + data@.take(c as int),
        decreases n - c,
    {
        let byte = data[c];
        st.serial_out.push(byte);
        st.vga_out.push(byte);
        proof {
            assert(st.serial_out@ =~= old(st).serial_out@ + data@.take(c + 1));
            assert(st.vga_out@ =~= old(st).vga_out@ + data@.take(c + 1));
        }
        c += 1;
    }
    proof {
        assert(data@.take(n as int) =~= data@);
    }
    c as u32
}

/// What GETKEY does: the oldest buffered scan code is popped; the
/// sentinel stands for an empty buffer, which stays empty.
pub open spec fn spec_getkey_post(pre: KernelState, post: KernelState, r: u32) -> bool {
    &&& same_except_scans(pre, post)
    &&& pre.scans.count() == 0 ==> r == SENTINEL && post.scans == pre.scans
    &&& pre.scans.count() > 0 ==> r == pre.scans.pending()[0] && post.scans.pending()
        == pre.scans.pending().drop_first()
}

/// Pops the oldest buffered scan code; the sentinel stands for an empty
/// buffer.
pub fn syscall_getkey(st: &mut KernelState) -> (r: u32)
    requires
        old(st).wf(),
    ensures
        final(st).wf(),
        spec_getkey_post(*old(st), *final(st), r),
    {
    match st.scans.read() {
        Some(scan) => scan as u32,
        None => SENTINEL,
    }
}

/// Reads the uptime: ten milliseconds for every timer tick, truncated
/// to the register's width.
pub fn syscall_gettick(st: &KernelState) -> (r: u32)
    requires
        st.wf(),
    ensures
        r == (st.ticks * 10) as u32,
{
    #[verifier::truncate] (timer::uptime(st.ticks) as u32)
}

/// What PLAYSOUND does: playback of the tone list starts at once and
/// zero comes back.
pub open spec fn spec_playsound_post(
    pre: KernelState,
    post: KernelState,
    tones: Seq<Tone>,
    repeat: bool,
    r: u32,
) -> bool {
    &&& same_except_speaker(pre, post)
    &&& post.speaker@ == speaker::spec_start_melody(
        pre.speaker@,
        tones,
        repeat,
        (pre.ticks * 10) as u64,
    )
    &&& r == 0
}

/// Starts asynchronous playback of a tone list.
pub fn syscall_playsound(st: &mut KernelState, tones: Vec<Tone>, repeat: bool) -> (r: u32)
    requires
        old(st).wf(),
    ensures
        final(st).wf(),
        spec_playsound_post(*old(st), *final(st), tones@, repeat, r),
{
    let now = timer::uptime(st.ticks);
    speaker::start_melody(&mut st.speaker, tones, repeat, now);
    0
}

/// The first inode of the chain whose name equals `name`.
pub open spec fn spec_lookup(inos: Seq<InodeView>, name: Seq<u8>) -> Option<InodeView>
    decreases inos.len(),
{
    if inos.len() == 0 {
        None
    } else if spec_cstr(inos[0].filename) == name {
        Some(inos[0])
    } else {
        spec_lookup(inos.drop_first(), name)
    }
}

/// What OPEN needs: a filesystem was handed over at boot and checked,
/// and the file the name denotes, if any, uses no indirect blocks (one
/// that does cannot be served).
pub open spec fn spec_open_pre(st: KernelState, name: Seq<u8>) -> bool {
    &&& st.fs.superblock matches Some(sb) && sb.validated()
    &&& match st.fs.superblock {
        Some(sb) => match spec_lookup(sb.spec_inodes(), name) {
            Some(v) => v.i_blk_cnt == 0,
            None => true,
        },
        None => false,
    }
}

/// What OPEN does: the first inode of the chain with the given name is
/// opened at the lowest free descriptor, with a fresh handle over the
/// file's bytes at offset zero; the sentinel stands both for a name
/// that names no file and for a full table, which leave the process
/// unchanged.
pub open spec fn spec_open_post(pre: KernelState, post: KernelState, name: Seq<u8>, r: u32) -> bool {
    &&& same_except_process(pre, post)
    &&& post.process.memory@ == pre.process.memory@
    &&& post.process.brk == pre.process.brk
    &&& ({
        let sb = pre.fs.superblock->0;
        let files = pre.process.files@;
        match spec_lookup(sb.spec_inodes(), name) {
            None => r == SENTINEL && post.process == pre.process,
            Some(v) => {
                let ff = spec_first_free(files, 0);
                if ff < MAX_FD {
                    &&& r == ff as u32
                    &&& post.process.files@.len() == files.len()
                    &&& post.process.files@[ff] matches Some(h) && h.wf() && h@.offset == 0
                        && h@.contents == spec_file_contents(
                        sb.blocks_view(),
                        v.d_blks.take(v.d_blk_cnt as int),
                    )
                    &&& forall|j: int| 0 <= j < files.len() && j != ff ==> post.process.files@[j]
                        == files[j]
                } else {
                    r == SENTINEL && post.process == pre.process
                }
            }
        }
    })
}

/// Looks the name up in the filesystem and stores a handle over the
/// file in the lowest free descriptor slot. The sentinel stands both
/// for a name that names no file and for a full table.
pub fn syscall_open(st: &mut KernelState, path: &Vec<u8>, _flags: u32) -> (r: u32)
    requires
        old(st).wf(),
        spec_open_pre(*old(st), path@),
    ensures
        final(st).wf(),
        spec_open_post(*old(st), *final(st), path@, r),
{
    let sb = match &st.fs.superblock {
        Some(sb) => sb,
        None => vstd::pervasive::unreached(),
    };
    let inodes = sb.inodes();
    let ghost chain = sb.spec_inodes();
    let n = inodes.len();
    let mut i: usize = 0;
    let mut found: Option<usize> = None;
    proof {
        assert(chain.skip(0) =~= chain);
    }
    while i < n
        invariant_except_break
            found is None,
            spec_lookup(chain, path@) == spec_lookup(chain.skip(i as int), path@),
        invariant
            i <= n,
            n == inodes@.len(),
            inodes@.map_values(|ino: Inode| ino@) == chain,
            forall|k: int| 0 <= k < n ==> (#[trigger] inodes@[k]).wf(),
        ensures
            i <= n,
            match found {
                Some(fi) => fi < n && spec_lookup(chain, path@) == Some(chain[fi as int]),
                None => spec_lookup(chain, path@) is None,
            },
        decreases n - i,
    {
        let name = inodes[i].filename();
        if bytes_eq(&name, path) {
            proof {
                assert(chain.skip(i as int)[0] == chain[i as int]);
                assert(spec_lookup(chain.skip(i as int), path@) == Some(chain[i as int]));
            }
            found = Some(i);
            break;
        }
        proof {
            assert(chain.skip(i as int)[0] == chain[i as int]);
            assert(chain.skip(i as int).drop_first() =~= chain.skip(i + 1));
        }
        i += 1;
    }
    match found {
        Some(i) => {
            proof {
                crate::kfs::lemma_chain_ok_at(
                    sb.blocks_view(),
                    sb.inode_idx as int,
                    sb.blk_cnt as nat,
                    i as int,
                );
                assert(inodes@[i as int]@ == chain[i as int]);
            }
            let file = sb.reader(&inodes[i]);
            let ghost fileg = file;
            let ghost v = chain[i as int];
            let ghost files0 = st.process.files@;
            let r = match st.process.store_file(file) {
                Ok(fd) => fd,
                Err(()) => SENTINEL,
            };
            proof {
                let ff = spec_first_free(files0, 0);
                assert(files0.len() == MAX_FD);
                crate::process::lemma_first_free_shape(files0, 0);
                assert(spec_lookup(chain, path@) == Some(v));
                assert(fileg.wf() && fileg@.offset == 0);
                assert(fileg@.contents == spec_file_contents(
                    sb.blocks_view(),
                    v.d_blks.take(v.d_blk_cnt as int),
                ));
                if ff < MAX_FD {
                    assert(st.process.files@ == files0.update(ff, Some(fileg)));
                    assert(st.process.files@[ff] == Some(fileg));
                    assert(r == ff as u32);
                } else {
                    assert(r == SENTINEL && st.process == old(st).process);
                }
            }
            r
        }
        None => SENTINEL,
    }
}

/// What READ returns: the sentinel for a descriptor outside the table
/// or an empty slot, else how many bytes the handle yields.
pub open spec fn spec_read_result(
    files: Seq<Option<DataBlockReader>>,
    fd: int,
    len: int,
) -> u32 {
    if 0 <= fd < files.len() && files[fd] is Some {
        spec_read_bytes(files[fd]->0@, len).len() as u32
    } else {
        SENTINEL
    }
}

/// The bytes READ yields: none for a descriptor outside the table or an
/// empty slot.
pub open spec fn spec_read_data(
    files: Seq<Option<DataBlockReader>>,
    fd: int,
    len: int,
) -> Seq<u8> {
    if 0 <= fd < files.len() && files[fd] is Some {
        spec_read_bytes(files[fd]->0@, len)
    } else {
        Seq::<u8>::empty()
    }
}

/// Reads up to `len` bytes at the handle's cursor and advances the
/// cursor over them; zero bytes mean the end of the file. The sentinel
/// stands for a descriptor outside the table or an empty slot, which
/// leave everything unchanged.
/// What READ does to the table: the handle under a live descriptor
/// advances over the bytes read; anything else leaves the table as it
/// was.
pub open spec fn spec_read_post(pre: KernelState, post: KernelState, fd: int, len: int, r: u32) -> bool {
    &&& same_except_process(pre, post)
    &&& post.process.memory@ == pre.process.memory@
    &&& post.process.brk == pre.process.brk
    &&& r == spec_read_result(pre.process.files@, fd, len)
    &&& ({
        let files = pre.process.files@;
        if 0 <= fd < files.len() && files[fd] is Some {
            &&& post.process.files@.len() == files.len()
            &&& post.process.files@[fd] matches Some(h) && h.wf() && h@ == spec_read_advance(
                files[fd]->0@,
                len,
            )
            &&& forall|j: int| 0 <= j < files.len() && j != fd ==> post.process.files@[j]
                == files[j]
        } else {
            post.process.files@ == files
        }
    })
}

pub fn syscall_read(st: &mut KernelState, fd: u32, len: usize) -> (r: (u32, Vec<u8>))
    requires
        old(st).wf(),
    ensures
        final(st).wf(),
        spec_read_post(*old(st), *final(st), fd as int, len as int, r.0),
        r.1@ == spec_read_data(old(st).process.files@, fd as int, len as int),
{
    if fd as usize >= MAX_FD {
        return (SENTINEL, Vec::new());
    }
    proof {
        assert(st.process.files@[fd as int] is Some ==> st.process.files@[fd as int]->0.wf());
    }
    let r = match &mut st.process.files[fd as usize] {
        Some(h) => {
            proof {
                h.lemma_wf_offset();
            }
            let data = h.read(len);
            let count = data.len() as u32;
            (count, data)
        }
        None => (SENTINEL, Vec::new()),
    };
    proof {
        if old(st).process.files@[fd as int] is None {
            assert(st.process.files@ =~= old(st).process.files@);
        }
    }
    r
}

/// Decodes the whence argument of SEEK: zero counts from the start of
/// the file, one from the cursor, two from the end; anything else is
/// refused.
pub fn parse_seek_from(offset: i32, whence: u32) -> (r: Result<SeekFrom, ()>)
    ensures
        whence == 0 ==> r == Ok::<SeekFrom, ()>(SeekFrom::Start((offset as isize) as usize)),
        whence == 1 ==> r == Ok::<SeekFrom, ()>(SeekFrom::Current(offset as isize)),
        whence == 2 ==> r == Ok::<SeekFrom, ()>(SeekFrom::End(offset as isize)),
        whence > 2 ==> r == Err::<SeekFrom, ()>(()),
{
    match whence {
        0 => Ok(SeekFrom::Start(#[verifier::truncate] ((offset as isize) as usize))),
        1 => Ok(SeekFrom::Current(offset as isize)),
        2 => Ok(SeekFrom::End(offset as isize)),
        _ => Err(()),
    }
}

/// Where SEEK puts the cursor, and what it returns: the new absolute
/// offset, or the sentinel for a bad whence, a descriptor outside the
/// table, or an empty slot.
pub open spec fn spec_seek_result(
    files: Seq<Option<DataBlockReader>>,
    fd: int,
    offset: i32,
    whence: u32,
) -> u32 {
    if whence > 2 {
        SENTINEL
    } else if 0 <= fd < files.len() && files[fd] is Some {
        let h = files[fd]->0@;
        let from = spec_whence(offset, whence);
        DataBlockReader::spec_seek_pos(h.offset, from, h.contents.len() as int) as u32
    } else {
        SENTINEL
    }
}

/// The seek position a decoded whence argument denotes.
pub open spec fn spec_whence(offset: i32, whence: u32) -> SeekFrom {
    if whence == 0 {
        SeekFrom::Start((offset as isize) as usize)
    } else if whence == 1 {
        SeekFrom::Current(offset as isize)
    } else {
        SeekFrom::End(offset as isize)
    }
}

/// Repositions the handle's cursor. The sentinel stands for a bad
/// whence argument, a descriptor outside the table, or an empty slot,
/// all of which leave everything unchanged.
/// What SEEK does to the table: the handle under a live descriptor
/// moves its cursor; a bad whence or a dead descriptor leaves the table
/// as it was.
pub open spec fn spec_seek_post(
    pre: KernelState,
    post: KernelState,
    fd: int,
    offset: i32,
    whence: u32,
    r: u32,
) -> bool {
    &&& same_except_process(pre, post)
    &&& post.process.memory@ == pre.process.memory@
    &&& post.process.brk == pre.process.brk
    &&& r == spec_seek_result(pre.process.files@, fd, offset, whence)
    &&& ({
        let files = pre.process.files@;
        if whence <= 2 && 0 <= fd < files.len() && files[fd] is Some {
            &&& post.process.files@.len() == files.len()
            &&& post.process.files@[fd] matches Some(h) && h.wf() && h@
                == DataBlockReader::spec_seek_view(files[fd]->0@, spec_whence(offset, whence))
            &&& forall|j: int| 0 <= j < files.len() && j != fd ==> post.process.files@[j]
                == files[j]
        } else {
            post.process.files@ == files
        }
    })
}

pub fn syscall_seek(st: &mut KernelState, fd: u32, offset: i32, whence: u32) -> (r: u32)
    requires
        old(st).wf(),
    ensures
        final(st).wf(),
        spec_seek_post(*old(st), *final(st), fd as int, offset, whence, r),
{
    let from = match parse_seek_from(offset, whence) {
        Ok(from) => from,
        Err(()) => {
            return SENTINEL;
        }
    };
    if fd as usize >= MAX_FD {
        return SENTINEL;
    }
    let r = match &mut st.process.files[fd as usize] {
        Some(h) => {
            proof {
                h.lemma_wf_offset();
            }
            match h.seek(from) {
                Ok(pos) => pos as u32,
                Err(()) => SENTINEL,
            }
        }
        None => SENTINEL,
    };
    proof {
        if old(st).process.files@[fd as int] is None {
            assert(st.process.files@ =~= old(st).process.files@);
        }
    }
    r
}

/// What CLOSE does to the table: a live descriptor's slot is emptied;
/// anything else leaves the table as it is.
pub open spec fn spec_close_files(
    files: Seq<Option<DataBlockReader>>,
    fd: int,
) -> Seq<Option<DataBlockReader>> {
    if 0 <= fd < files.len() && files[fd] is Some {
        files.update(fd, None)
    } else {
        files
    }
}

/// What CLOSE returns: zero for a live descriptor, the sentinel for a
/// descriptor outside the table or an already empty slot.
pub open spec fn spec_close_result(files: Seq<Option<DataBlockReader>>, fd: int) -> u32 {
    if 0 <= fd < files.len() && files[fd] is Some {
        0
    } else {
        SENTINEL
    }
}

/// Releases a descriptor's slot.
/// What CLOSE does: a live descriptor's slot is emptied and zero comes
/// back; anything else yields the sentinel and leaves the table as it
/// was.
pub open spec fn spec_close_post(pre: KernelState, post: KernelState, fd: int, r: u32) -> bool {
    &&& same_except_process(pre, post)
    &&& post.process.memory@ == pre.process.memory@
    &&& post.process.brk == pre.process.brk
    &&& r == spec_close_result(pre.process.files@, fd)
    &&& post.process.files@ == spec_close_files(pre.process.files@, fd)
}

pub fn syscall_close(st: &mut KernelState, fd: u32) -> (r: u32)
    requires
        old(st).wf(),
    ensures
        final(st).wf(),
        spec_close_post(*old(st), *final(st), fd as int, r),
    {
    match st.process.close_file(fd) {
        Ok(()) => 0,
        Err(()) => SENTINEL,
    }
}

/// The tone list stored at `ptr`: consecutive (frequency, duration)
/// word pairs up to, and excluding, the first zero-frequency entry.
pub open spec fn spec_tones(mem: Seq<u8>, ptr: int) -> Seq<Tone>
    decreases mem.len() - ptr,
{
    if ptr < 0 || ptr + 8 > mem.len() {
        Seq::<Tone>::empty()
    } else if crate::kfs::spec_le_u32(mem, ptr) == 0 {
        Seq::<Tone>::empty()
    } else {
        seq![
            Tone {
                frequency: crate::kfs::spec_le_u32(mem, ptr),
                duration: crate::kfs::spec_le_u32(mem, ptr + 4),
            },
        ] + spec_tones(mem, ptr + 8)
    }
}

/// Whether the tone list stored at `ptr` ends with an explicit
/// zero-frequency entry inside the buffer.
pub open spec fn spec_tones_terminated(mem: Seq<u8>, ptr: int) -> bool
    decreases mem.len() - ptr,
{
    if ptr < 0 || ptr + 8 > mem.len() {
        false
    } else if crate::kfs::spec_le_u32(mem, ptr) == 0 {
        true
    } else {
        spec_tones_terminated(mem, ptr + 8)
    }
}

/// Decodes the zero-terminated tone list at `ptr`; a list that runs
/// past the end of the buffer without its end marker is refused.
pub fn parse_tones(mem: &Vec<u8>, ptr: usize) -> (r: Option<Vec<Tone>>)
    ensures
        r is Some <==> spec_tones_terminated(mem@, ptr as int),
        r matches Some(tones) ==> tones@ == spec_tones(mem@, ptr as int),
{
    let n = mem.len();
    let mut out: Vec<Tone> = Vec::new();
    let mut cur: usize = ptr;
    while cur <= n && n - cur >= 8
        invariant
            ptr <= cur,
            n == mem@.len(),
            spec_tones(mem@, ptr as int) == out@ + spec_tones(mem@, cur as int),
            spec_tones_terminated(mem@, ptr as int) == spec_tones_terminated(mem@, cur as int),
        decreases n - cur,
    {
        let frequency = crate::kfs::read_le_u32(mem, cur);
        if frequency == 0 {
            return Some(out);
        }
        let duration = crate::kfs::read_le_u32(mem, cur + 4);
        out.push(Tone { frequency, duration });
        proof {
            assert(spec_tones(mem@, ptr as int) =~= out@ + spec_tones(mem@, cur + 8));
        }
        cur += 8;
    }
    None
}

/// The buffer with `data` written over the bytes at `at`.
pub open spec fn spec_splice(mem: Seq<u8>, at: int, data: Seq<u8>) -> Seq<u8> {
    mem.subrange(0, at) + data + mem.subrange(at + data.len(), mem.len() as int)
}

/// Writes the bytes of `data` over the buffer at `at`.
pub fn write_at(mem: &mut Vec<u8>, at: usize, data: &Vec<u8>)
    requires
        at + data@.len() <= old(mem)@.len(),
    ensures
        final(mem)@ == spec_splice(old(mem)@, at as int, data@),
{
    let n = data.len();
    let cap = mem.len();
    let mut i: usize = 0;
    while i < n
        invariant
            i <= n,
            n == data@.len(),
            at + n <= cap,
            cap == mem@.len(),
            mem@.len() == old(mem)@.len(),
            forall|j: int| 0 <= j < i ==> mem@[at + j] == data@[j],
            forall|j: int| 0 <= j < mem@.len() && !(at <= j < at + i) ==> mem@[j] == old(mem)@[j],
        decreases n - i,
    {
        mem[at + i] = data[i];
        i += 1;
    }
    proof {
        assert(mem@ =~= spec_splice(old(mem)@, at as int, data@));
    }
}

/// What the dispatcher does, operation by operation, given the
/// snapshot at entry, the kernel state and user memory before and
/// after, and the result written back.
pub open spec fn spec_syscall_post(
    c: InterruptContext,
    pre: KernelState,
    post: KernelState,
    mem0: Seq<u8>,
    mem1: Seq<u8>,
    r: u32,
) -> bool {
    &&& c.eax == SYSCALL_WRITE ==> spec_write_post(
        pre,
        post,
        mem0.subrange(c.ebx as int, c.ebx + c.ecx),
        r,
    ) && mem1 == mem0
    &&& c.eax == SYSCALL_GETKEY ==> spec_getkey_post(pre, post, r) && mem1 == mem0
    &&& c.eax == SYSCALL_GETTICK ==> r == (pre.ticks * 10) as u32 && post == pre && mem1 == mem0
    &&& c.eax == SYSCALL_PLAYSOUND ==> spec_playsound_post(
        pre,
        post,
        spec_tones(mem0, c.ebx as int),
        c.ecx != 0,
        r,
    ) && mem1 == mem0
    &&& c.eax == SYSCALL_OPEN ==> spec_open_post(
        pre,
        post,
        mem0.subrange(c.ebx as int, c.ebx + spec_strlen(mem0, c.ebx as int)),
        r,
    ) && mem1 == mem0
    &&& c.eax == SYSCALL_READ ==> spec_read_post(pre, post, c.ebx as int, c.edx as int, r) && mem1
        == spec_splice(mem0, c.ecx as int, spec_read_data(pre.process.files@, c.ebx as int, c.edx as int))
    &&& c.eax == SYSCALL_SEEK ==> spec_seek_post(pre, post, c.ebx as int, c.ecx as i32, c.edx, r)
        && mem1 == mem0
    &&& c.eax == SYSCALL_CLOSE ==> spec_close_post(pre, post, c.ebx as int, r) && mem1 == mem0
    &&& !spec_known_opcode(c.eax) ==> r == SENTINEL && post == pre && mem1 == mem0
}

/// What the dispatcher needs, operation by operation: the pointer and
/// length words of the ABI's boundary must stay inside the user
/// memory, OPEN needs the checked filesystem, and PLAYSOUND needs its
/// tone list terminated.
pub open spec fn spec_syscall_pre(c: InterruptContext, pre: KernelState, mem0: Seq<u8>) -> bool {
    &&& c.eax == SYSCALL_WRITE ==> c.ebx + c.ecx <= mem0.len()
    &&& c.eax == SYSCALL_OPEN ==> c.ebx <= mem0.len() && spec_open_pre(
        pre,
        mem0.subrange(c.ebx as int, c.ebx + spec_strlen(mem0, c.ebx as int)),
    )
    &&& c.eax == SYSCALL_READ ==> c.ecx + c.edx <= mem0.len()
    &&& c.eax == SYSCALL_PLAYSOUND ==> spec_tones_terminated(mem0, c.ebx as int)
}

/// Decodes one system call from the register snapshot, carries it out,
/// and writes the result into the snapshot's `eax` slot.
///
/// `mem` is the user program's memory, which the ABI's pointer
/// arguments index. The `requires` clauses record, operation by
/// operation, the boundary the ABI leaves unchecked: pointer and length
/// words must stay inside that memory.
///
/// An operation code outside the defined set yields the sentinel and
/// changes nothing — neither the kernel state nor the memory.
pub fn syscall_handler(context: &mut InterruptContext, st: &mut KernelState, mem: &mut Vec<u8>)
    requires
        old(st).wf(),
        spec_syscall_pre(*old(context), *old(st), old(mem)@),
    ensures
        final(st).wf(),
        *final(context) == (InterruptContext { eax: final(context).eax, ..*old(context) }),
        spec_syscall_post(
            *old(context),
            *old(st),
            *final(st),
            old(mem)@,
            final(mem)@,
            final(context).eax,
        ),
{
    let op = context.eax;
    let mlen = mem.len();
    let ret: u32 = if op == SYSCALL_WRITE {
        let data = copy_range(mem, context.ebx as usize, context.ebx as usize + context.ecx as usize);
        syscall_write(st, &data)
    } else if op == SYSCALL_GETKEY {
        syscall_getkey(st)
    } else if op == SYSCALL_GETTICK {
        syscall_gettick(st)
    } else if op == SYSCALL_PLAYSOUND {
        let tones = match parse_tones(mem, context.ebx as usize) {
            Some(tones) => tones,
            None => vstd::pervasive::unreached(),
        };
        syscall_playsound(st, tones, context.ecx != 0)
    } else if op == SYSCALL_OPEN {
        let path = cstr_at(mem, context.ebx as usize);
        syscall_open(st, &path, context.ecx)
    } else if op == SYSCALL_READ {
        let (count, data) = syscall_read(st, context.ebx, context.edx as usize);
        proof {
            let files = old(st).process.files@;
            if 0 <= context.ebx < files.len() && files[context.ebx as int] is Some {
                assert(files[context.ebx as int]->0.wf());
                files[context.ebx as int]->0.lemma_wf_offset();
            }
            assert(data@.len() <= context.edx as int);
        }
        write_at(mem, context.ecx as usize, &data);
        count
    } else if op == SYSCALL_SEEK {
        syscall_seek(st, context.ebx, #[verifier::truncate] (context.ecx as i32), context.edx)
    } else if op == SYSCALL_CLOSE {
        syscall_close(st, context.ebx)
    } else {
        SENTINEL
    };
    context.eax = ret;
}

/// Opening, closing, and then reading a descriptor yields the sentinel:
/// once CLOSE has emptied the slot that OPEN filled, no live handle
/// remains under that descriptor, whatever file was opened and whatever
/// length the read asks for.
pub proof fn lemma_open_close_read(
    files: Seq<Option<DataBlockReader>>,
    file: DataBlockReader,
    len: int,
)
    requires
        files.len() == MAX_FD,
        spec_first_free(files, 0) < MAX_FD,
    ensures
        ({
            let fd = spec_first_free(files, 0);
            let opened = files.update(fd, Some(file));
            let closed = spec_close_files(opened, fd);
            &&& spec_close_result(opened, fd) == 0
            &&& spec_read_result(closed, fd, len) == SENTINEL
            &&& spec_read_data(closed, fd, len) == Seq::<u8>::empty()
        }),
{
    crate::process::lemma_first_free_shape(files, 0);
    let fd = spec_first_free(files, 0);
    let opened = files.update(fd, Some(file));
    assert(opened[fd] is Some);
    assert(spec_close_files(opened, fd)[fd] is None);
}

/// What a run of OPEN calls does to the table: each stores its handle
/// in the lowest free slot, or yields the sentinel, leaving the table
/// unchanged, when no slot is free.
pub open spec fn spec_opens(
    files: Seq<Option<DataBlockReader>>,
    handles: Seq<DataBlockReader>,
) -> (Seq<Option<DataBlockReader>>, Seq<u32>)
    decreases handles.len(),
{
    if handles.len() == 0 {
        (files, Seq::<u32>::empty())
    } else {
        let ff = spec_first_free(files, 0);
        if ff < files.len() {
            let (f2, fds) = spec_opens(files.update(ff, Some(handles[0])), handles.drop_first());
            (f2, seq![ff as u32] + fds)
        } else {
            let (f2, fds) = spec_opens(files, handles.drop_first());
            (f2, seq![SENTINEL] + fds)
        }
    }
}

/// With at least as many free slots as handles, a run of OPEN calls
/// succeeds throughout, hands out strictly increasing lowest-available
/// descriptors, and uses up exactly one free slot per call.
pub proof fn lemma_sequential_opens(
    files: Seq<Option<DataBlockReader>>,
    handles: Seq<DataBlockReader>,
)
    requires
        files.len() == MAX_FD,
        handles.len() <= crate::process::spec_free_count(files, 0),
    ensures
        ({
            let (f2, fds) = spec_opens(files, handles);
            &&& fds.len() == handles.len()
            &&& forall|k: int| 0 <= k < fds.len() ==> #[trigger] fds[k] < MAX_FD
            &&& forall|k: int| 0 <= k < fds.len() ==> #[trigger] fds[k] >= spec_first_free(
                files,
                0,
            )
            &&& forall|j: int, k: int| 0 <= j < k < fds.len() ==> #[trigger] fds[j] < #[trigger] fds[k]
            &&& crate::process::spec_free_count(f2, 0) == crate::process::spec_free_count(files, 0)
                - handles.len()
        }),
    decreases handles.len(),
{
    crate::process::lemma_free_count_first_free(files, 0);
    crate::process::lemma_first_free_shape(files, 0);
    if handles.len() > 0 {
        let ff = spec_first_free(files, 0);
        assert(ff < files.len());
        let opened = files.update(ff, Some(handles[0]));
        crate::process::lemma_free_count_after_fill(files, ff, handles[0], 0);
        crate::process::lemma_first_free_after_fill(files, handles[0]);
        lemma_sequential_opens(opened, handles.drop_first());
        let (f2, fds_tail) = spec_opens(opened, handles.drop_first());
        let fds = seq![ff as u32] + fds_tail;
        assert(forall|k: int| 0 <= k < fds_tail.len() ==> #[trigger] fds_tail[k]
            >= spec_first_free(opened, 0));
        assert(forall|k: int| 1 <= k < fds.len() ==> #[trigger] fds[k] == fds_tail[k - 1]);
        assert(fds[0] == ff as u32);
    }
}

/// The one OPEN too many: on a table with no free slot it yields the
/// sentinel and the table is unmodified.
pub proof fn lemma_open_on_full_table(
    files: Seq<Option<DataBlockReader>>,
    handle: DataBlockReader,
)
    requires
        files.len() == MAX_FD,
        crate::process::spec_free_count(files, 0) == 0,
    ensures
        spec_opens(files, seq![handle]).0 == files,
        spec_opens(files, seq![handle]).1 == seq![SENTINEL],
{
    crate::process::lemma_free_count_first_free(files, 0);
    let handles = seq![handle];
    assert(handles.drop_first() =~= Seq::<DataBlockReader>::empty());
    assert(spec_opens(files, handles.drop_first()).1 =~= Seq::<u32>::empty());
    assert(spec_opens(files, handles).1 =~= seq![SENTINEL]);
}

} // verus!
