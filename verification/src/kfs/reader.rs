//! A cursor over the data blocks of one file: sequential reads and
//! absolute or relative seeks over the concatenation of the blocks' used
//! bytes.

use vstd::prelude::*;
use crate::io::{Read, Seek, SeekFrom};
use super::{DataBlock, MAX_DIRECT_BLK};

verus! {

/// The file content a list of data blocks carries: the used bytes of
/// every block, in order.
pub open spec fn contents_of(blocks: Seq<DataBlock>) -> Seq<u8>
    decreases blocks.len(),
{
    if blocks.len() == 0 {
        Seq::<u8>::empty()
    } else {
        blocks[0].used_bytes() + contents_of(blocks.drop_first())
    }
}

/// Splitting a block list splits its contents.
pub proof fn lemma_contents_split(blocks: Seq<DataBlock>, k: int)
    requires
        0 <= k <= blocks.len(),
    ensures
        contents_of(blocks) =~= contents_of(blocks.take(k)) + contents_of(blocks.skip(k)),
    decreases k,
{
    if k == 0 {
        assert(blocks.take(0) =~= Seq::<DataBlock>::empty());
        assert(blocks.skip(0) =~= blocks);
    } else {
        lemma_contents_split(blocks.drop_first(), k - 1);
        assert(blocks.take(k).drop_first() =~= blocks.drop_first().take(k - 1));
        assert(blocks.skip(k) =~= blocks.drop_first().skip(k - 1));
        assert(contents_of(blocks.take(k)) =~= blocks[0].used_bytes() + contents_of(
            blocks.drop_first().take(k - 1),
        ));
    }
}

/// Taking one block more appends exactly its used bytes.
pub proof fn lemma_contents_take_succ(blocks: Seq<DataBlock>, k: int)
    requires
        0 <= k < blocks.len(),
    ensures
        contents_of(blocks.take(k + 1)) =~= contents_of(blocks.take(k))
            + blocks[k].used_bytes(),
{
    lemma_contents_split(blocks.take(k + 1), k);
    assert(blocks.take(k + 1).take(k) =~= blocks.take(k));
    assert(blocks.take(k + 1).skip(k) =~= seq![blocks[k]]);
    let s1 = seq![blocks[k]];
    assert(s1.drop_first() =~= Seq::<DataBlock>::empty());
    assert(contents_of(Seq::<DataBlock>::empty()) =~= Seq::<u8>::empty());
    assert(contents_of(s1) =~= blocks[k].used_bytes());
}

/// The contents of a well-formed block list stay short: no block carries
/// more than its payload size.
pub proof fn lemma_contents_len(blocks: Seq<DataBlock>)
    requires
        forall|i: int| 0 <= i < blocks.len() ==> (#[trigger] blocks[i]).wf(),
    ensures
        contents_of(blocks).len() <= blocks.len() * super::BLK_DATA_SIZE,
    decreases blocks.len(),
{
    if blocks.len() > 0 {
        lemma_contents_len(blocks.drop_first());
    }
}

/// The mathematical value of a reader: the file's bytes and the cursor.
#[verifier::ext_equal]
pub ghost struct ReaderView {
    pub contents: Seq<u8>,
    pub offset: int,
}

/// The bytes a read of `len` returns: the next `len` bytes of the file,
/// or whatever remains before its end.
pub open spec fn spec_read_bytes(r: ReaderView, len: int) -> Seq<u8> {
    r.contents.subrange(r.offset, vstd::math::min(r.offset + len, r.contents.len() as int))
}

/// The reader after a read of `len`: the cursor has advanced over the
/// bytes read.
pub open spec fn spec_read_advance(r: ReaderView, len: int) -> ReaderView {
    ReaderView {
        contents: r.contents,
        offset: vstd::math::min(r.offset + len, r.contents.len() as int),
    }
}

impl super::FileHandle for DataBlockReader {

}

impl Read for DataBlockReader {
    open spec fn stream(&self) -> Seq<u8> {
        self@.contents
    }

    open spec fn cursor(&self) -> int {
        self@.offset
    }

    open spec fn inv(&self) -> bool {
        self.wf()
    }

    fn read(&mut self, len: usize) -> (r: Vec<u8>) {
        DataBlockReader::read(self, len)
    }
}

impl Seek for DataBlockReader {
    open spec fn seek_stream(&self) -> Seq<u8> {
        self@.contents
    }

    open spec fn seek_cursor(&self) -> int {
        self@.offset
    }

    open spec fn seek_inv(&self) -> bool {
        self.wf()
    }

    fn seek(&mut self, from: SeekFrom) -> (r: Result<usize, ()>) {
        DataBlockReader::seek(self, from)
    }
}

/// A reader over the data blocks of one file.
#[derive(Debug)]
pub struct DataBlockReader {
    /// The file's data blocks, in order.
    blocks: Vec<DataBlock>,
    /// The block the cursor stands in; the count of blocks once every
    /// block has been passed.
    block_idx: usize,
    /// Offset of the cursor within the used bytes of the current block.
    current_offset: usize,
    /// Offset of the cursor in the file.
    offset: usize,
}

impl View for DataBlockReader {
    type V = ReaderView;

    closed spec fn view(&self) -> ReaderView {
        ReaderView { contents: contents_of(self.blocks@), offset: self.offset as int }
    }
}

impl DataBlockReader {
    /// Every block is well formed, there are no more of them than an
    /// inode can reference, and the cursor fields agree: the file offset
    /// is the content passed in earlier blocks plus the offset within the
    /// current one.
    pub closed spec fn wf(&self) -> bool {
        &&& forall|i: int| 0 <= i < self.blocks@.len() ==> (#[trigger] self.blocks@[i]).wf()
        &&& self.blocks@.len() <= MAX_DIRECT_BLK
        &&& self.block_idx <= self.blocks@.len()
        &&& if self.block_idx < self.blocks@.len() {
            self.current_offset <= self.blocks@[self.block_idx as int].usage
        } else {
            self.current_offset == 0
        }
        &&& self.offset == contents_of(self.blocks@.take(self.block_idx as int)).len()
            + self.current_offset
    }

    /// The cursor stays within the file.
    pub proof fn lemma_wf_offset(&self)
        requires
            self.wf(),
        ensures
            0 <= self@.offset <= self@.contents.len(),
            self@.contents.len() <= MAX_DIRECT_BLK * super::BLK_DATA_SIZE,
    {
        lemma_contents_split(self.blocks@, self.block_idx as int);
        if self.block_idx < self.blocks@.len() {
            lemma_contents_take_succ(self.blocks@, self.block_idx as int);
            lemma_contents_len(self.blocks@);
        } else {
            assert(self.blocks@.take(self.block_idx as int) =~= self.blocks@);
            lemma_contents_len(self.blocks@);
        }
    }

    /// A reader at the start of the file the blocks carry.
    pub fn new(blocks: Vec<DataBlock>) -> (r: DataBlockReader)
        requires
            forall|i: int| 0 <= i < blocks@.len() ==> (#[trigger] blocks@[i]).wf(),
            blocks@.len() <= MAX_DIRECT_BLK,
        ensures
            r.wf(),
            r@.contents == contents_of(blocks@),
            r@.offset == 0,
    {
        let r = DataBlockReader { blocks, block_idx: 0, current_offset: 0, offset: 0 };
        proof {
            assert(r.blocks@.take(0) =~= Seq::<DataBlock>::empty());
        }
        r
    }

    /// Leaves the current block behind: the cursor moves to the start of
    /// the next one, counting the bytes of the current block that were
    /// not passed yet.
    fn next_block(&mut self)
        requires
            old(self).wf(),
        ensures
            final(self).wf(),
            final(self).blocks@ == old(self).blocks@,
            final(self)@.contents == old(self)@.contents,
            old(self).has_current() ==> final(self)@.offset == old(self)@.offset
                + old(self).current_remaining() && final(self).block_idx == old(
            self).block_idx + 1,
            !old(self).has_current() ==> *final(self) == *old(self),
    {
        proof {
            self.lemma_wf_offset();
        }
        if self.block_idx < self.blocks.len() {
            let ghost bi = self.block_idx as int;
            let usage = self.blocks[self.block_idx].usage as usize;
            self.offset = self.offset + (usage - self.current_offset);
            self.current_offset = 0;
            self.block_idx = self.block_idx + 1;
            proof {
                lemma_contents_take_succ(self.blocks@, bi);
            }
        }
    }

    /// Whether the cursor still stands in a block.
    pub closed spec fn has_current(&self) -> bool {
        self.block_idx < self.blocks@.len()
    }

    /// The used bytes of the current block not yet passed.
    pub closed spec fn current_remaining(&self) -> int {
        self.blocks@[self.block_idx as int].usage - self.current_offset
    }

    /// Walks to the end of the file.
    fn go_to_end(&mut self)
        requires
            old(self).wf(),
        ensures
            final(self).wf(),
            final(self).blocks@ == old(self).blocks@,
            final(self)@.contents == old(self)@.contents,
            final(self)@.offset == final(self)@.contents.len(),
    {
        while self.block_idx < self.blocks.len()
            invariant
                self.wf(),
                self.blocks@ == old(self).blocks@,
                self@.contents == old(self)@.contents,
            decreases self.blocks@.len() - self.block_idx,
        {
            self.next_block();
            proof {
                self.lemma_wf_offset();
            }
        }
        proof {
            assert(self.blocks@.take(self.blocks@.len() as int) =~= self.blocks@);
        }
    }

    /// Returns to the start of the file.
    fn reset(&mut self)
        requires
            old(self).wf(),
        ensures
            final(self).wf(),
            final(self).blocks@ == old(self).blocks@,
            final(self)@.contents == old(self)@.contents,
            final(self)@.offset == 0,
    {
        self.block_idx = 0;
        self.current_offset = 0;
        self.offset = 0;
        proof {
            assert(self.blocks@.take(0) =~= Seq::<DataBlock>::empty());
        }
    }

    /// Moves the cursor to the given offset, or to the end of the file
    /// when the offset lies beyond it.
    fn seek_at(&mut self, target: usize) -> (r: Result<(), ()>)
        requires
            old(self).wf(),
        ensures
            final(self).wf(),
            final(self)@.contents == old(self)@.contents,
            final(self)@.offset == vstd::math::min(
                target as int,
                old(self)@.contents.len() as int,
            ),
            r is Ok,
    {
        proof {
            self.lemma_wf_offset();
        }
        if target < self.offset {
            self.reset();
        }
        while self.offset != target && self.block_idx < self.blocks.len()
            invariant
                self.wf(),
                self.blocks@ == old(self).blocks@,
                self@.contents == old(self)@.contents,
                self.offset <= target,
            decreases self.blocks@.len() - self.block_idx, target - self.offset,
        {
            proof {
                self.lemma_wf_offset();
            }
            let usage = self.blocks[self.block_idx].usage as usize;
            let remaining = target - self.offset;
            if usage - self.current_offset >= remaining {
                self.current_offset = self.current_offset + remaining;
                self.offset = self.offset + remaining;
            } else {
                self.next_block();
            }
            proof {
                self.lemma_wf_offset();
            }
        }
        proof {
            self.lemma_wf_offset();
            if self.block_idx == self.blocks@.len() {
                assert(self.blocks@.take(self.block_idx as int) =~= self.blocks@);
            }
        }
        Ok(())
    }

    /// Reads up to `len` bytes at the cursor: exactly the next `len`
    /// bytes of the file, or whatever remains before its end. The cursor
    /// advances over the bytes read.
    pub fn read(&mut self, len: usize) -> (r: Vec<u8>)
        requires
            old(self).wf(),
        ensures
            final(self).wf(),
            r@ == spec_read_bytes(old(self)@, len as int),
            final(self)@ == spec_read_advance(old(self)@, len as int),
    {
        proof {
            self.lemma_wf_offset();
        }
        let mut out: Vec<u8> = Vec::new();
        while out.len() < len && self.block_idx < self.blocks.len()
            invariant
                self.wf(),
                self@.contents == old(self)@.contents,
                out@.len() <= len,
                self.blocks@ == old(self).blocks@,
                self@.offset == old(self)@.offset + out@.len(),
                0 <= self@.offset <= self@.contents.len(),
                out@ == self@.contents.subrange(old(self)@.offset, self@.offset),
            decreases len - out@.len(), self.blocks@.len() - self.block_idx,
        {
            let usage = self.blocks[self.block_idx].usage as usize;
            if self.current_offset < usage {
                proof {
                    lemma_contents_split(self.blocks@, self.block_idx as int);
                    lemma_contents_take_succ(self.blocks@, self.block_idx as int);
                    lemma_contents_len(self.blocks@);
                }
                let byte = self.blocks[self.block_idx].data[self.current_offset];
                assert(byte == self@.contents[self@.offset]);
                out.push(byte);
                self.current_offset = self.current_offset + 1;
                self.offset = self.offset + 1;
                proof {
                    assert(out@ =~= self@.contents.subrange(old(self)@.offset, self@.offset));
                }
            } else {
                self.next_block();
            }
            proof {
                self.lemma_wf_offset();
            }
        }
        proof {
            self.lemma_wf_offset();
            if out@.len() < len {
                assert(self.blocks@.take(self.block_idx as int) =~= self.blocks@);
            }
            assert(self@ =~= spec_read_advance(old(self)@, len as int));
        }
        out
    }

    /// Where a seek lands: the requested position, clamped into the file.
    pub open spec fn spec_seek_pos(off: int, from: SeekFrom, clen: int) -> int {
        let t = match from {
            SeekFrom::Start(o) => o as int,
            SeekFrom::Current(d) => off + d,
            SeekFrom::End(d) => clen + d,
        };
        if t < 0 || t > clen {
            clen
        } else {
            t
        }
    }

    /// The reader after a seek: the cursor stands at the clamped target.
    pub open spec fn spec_seek_view(r: ReaderView, from: SeekFrom) -> ReaderView {
        ReaderView {
            contents: r.contents,
            offset: Self::spec_seek_pos(r.offset, from, r.contents.len() as int),
        }
    }

    /// Moves the cursor: to an absolute offset, relative to the cursor,
    /// or relative to the end of the file; a target outside the file
    /// lands at its end. Returns the new absolute offset.
    pub fn seek(&mut self, from: SeekFrom) -> (r: Result<usize, ()>)
        requires
            old(self).wf(),
        ensures
            final(self).wf(),
            final(self)@ == Self::spec_seek_view(old(self)@, from),
            r == Ok::<usize, ()>((Self::spec_seek_pos(
                old(self)@.offset,
                from,
                old(self)@.contents.len() as int,
            )) as usize),
    {
        proof {
            self.lemma_wf_offset();
        }
        let result = match from {
            SeekFrom::Start(o) => self.seek_at(o),
            SeekFrom::Current(d) => {
                let target = Self::relative_target(self.offset, d);
                self.seek_at(target)
            }
            SeekFrom::End(d) => {
                self.go_to_end();
                let target = Self::relative_target(self.offset, d);
                self.seek_at(target)
            }
        };
        proof {
            assert(self@ =~= Self::spec_seek_view(old(self)@, from));
        }
        match result {
            Ok(()) => Ok(self.offset),
            Err(()) => Err(()),
        }
    }

    /// The absolute position `d` bytes from `off`: a move below the
    /// start of the file wraps around the address space, so it lands
    /// past any file and the seek clamps to the end.
    fn relative_target(off: usize, d: isize) -> (t: usize)
        requires
            off <= MAX_DIRECT_BLK * super::BLK_DATA_SIZE,
        ensures
            0 <= off + d <= usize::MAX ==> t == off + d,
            off + d < 0 ==> t > MAX_DIRECT_BLK * super::BLK_DATA_SIZE,
    {
        if d >= 0 {
            off + (d as usize)
        } else if d > isize::MIN && ((-d) as usize) <= off {
            off - ((-d) as usize)
        } else {
            usize::MAX
        }
    }
}

/// Positioning by a seek and positioning by a discarded read agree: for
/// a reader at the start of its file, seeking to `k` and then reading
/// `len` bytes yields the same bytes as reading `k` bytes, discarding
/// them, and reading `len` more.
pub proof fn lemma_seek_read_equivalence(r: ReaderView, k: usize, len: usize)
    requires
        r.offset == 0,
    ensures
        spec_read_bytes(
            DataBlockReader::spec_seek_view(r, SeekFrom::Start(k)),
            len as int,
        ) == spec_read_bytes(spec_read_advance(r, k as int), len as int),
{
    assert(DataBlockReader::spec_seek_view(r, SeekFrom::Start(k)) =~= spec_read_advance(
        r,
        k as int,
    ));
}

} // verus!
