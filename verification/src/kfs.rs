//! The read-only filesystem that the boot module carries: a flat array of
//! fixed-size blocks holding a checksummed superblock, a chain of inodes,
//! and data blocks.
//!
//! The block image arrives as plain bytes (the boot loader hands the
//! kernel the module's memory range); everything here decodes and checks
//! those bytes and never touches memory it was not given.

pub mod reader;

use vstd::prelude::*;
use crate::io::{Read, Seek};
use crate::strings::{copy_range, cstr_at, spec_cstr};
use self::reader::{contents_of, DataBlockReader};

verus! {

/// Magic number at the start of a filesystem image.
pub const MAGIC: u32 = 0xd35f9caa;

/// Size of the volume-name field of the superblock.
pub const NAME_SIZE: usize = 32;

/// Size of the filename field of an inode.
pub const FNAME_SIZE: usize = 32;

/// Size of one block of the image.
pub const BLK_SIZE: usize = 4096;

/// Bytes of payload in a data block: the block less its three header
/// words.
pub const BLK_DATA_SIZE: usize = 4084;

/// Greatest number of direct block references an inode may hold.
pub const MAX_DIRECT_BLK: usize = 10;

/// Greatest number of indirect block references an inode may hold.
pub const MAX_INDIRECT_BLK: usize = 16;

/// Modulus of the checksum.
pub const ADLER32_MOD: u32 = 65521;

/// A capability over one file of the filesystem: a handle that can be
/// read at a cursor and repositioned. The concrete reader implements
/// it; the dispatcher holds handles behind descriptor numbers.
pub trait FileHandle: Read + Seek {

}

/// Why an image was rejected.
#[derive(Clone, Copy, Debug, PartialEq, Eq, Structural)]
pub enum Error {
    InvalidChecksum,
    InvalidMagic,
    MemTooSmall,
    OutOfBounds,
}

/// The checksum state after the first `n` bytes of `data`: the running
/// pair of sums, each kept below the modulus.
pub open spec fn adler_state(data: Seq<u8>, n: int) -> (int, int)
    decreases n,
{
    if n <= 0 {
        (1, 0)
    } else {
        let (a, b) = adler_state(data, n - 1);
        let a2 = (a + data[n - 1]) % (ADLER32_MOD as int);
        let b2 = (a2 + b) % (ADLER32_MOD as int);
        (a2, b2)
    }
}

/// The checksum of `data`: the high sum in the upper half of the word,
/// the low sum in the lower half.
pub open spec fn spec_adler32(data: Seq<u8>) -> int {
    let (a, b) = adler_state(data, data.len() as int);
    b * 0x10000 + a
}

/// The running sums stay below the modulus.
proof fn lemma_adler_state_bounds(data: Seq<u8>, n: int)
    ensures
        0 <= adler_state(data, n).0 < ADLER32_MOD,
        0 <= adler_state(data, n).1 < ADLER32_MOD,
    decreases n,
{
    if n > 0 {
        lemma_adler_state_bounds(data, n - 1);
    }
}

/// The checksum used by every record of the image.
pub fn adler_checksum(data: &Vec<u8>) -> (r: u32)
    ensures
        r == spec_adler32(data@),
{
    let mut a: u32 = 1;
    let mut b: u32 = 0;
    let mut i: usize = 0;
    while i < data.len()
        invariant
            i <= data@.len(),
            (a as int, b as int) == adler_state(data@, i as int),
            a < ADLER32_MOD,
            b < ADLER32_MOD,
        decreases data@.len() - i,
    {
        a = (a + data[i] as u32) % ADLER32_MOD;
        b = (a + b) % ADLER32_MOD;
        i += 1;
    }
    proof {
        lemma_adler_state_bounds(data@, data@.len() as int);
        assert(b < 0x10000 && a < 0x10000 ==> ((b << 16u32) | a) == b * 0x10000 + a) by (bit_vector);
    }
    (b << 16u32) | a
}

/// The four bytes of a word, least significant first.
pub open spec fn spec_le_bytes32(x: u32) -> Seq<u8> {
    seq![
        (x % 0x100) as u8,
        ((x / 0x100) % 0x100) as u8,
        ((x / 0x10000) % 0x100) as u8,
        ((x / 0x1000000) % 0x100) as u8,
    ]
}

/// The word read from four bytes, least significant first.
pub open spec fn spec_le_u32(b: Seq<u8>, off: int) -> u32 {
    (b[off] + b[off + 1] * 0x100 + b[off + 2] * 0x10000 + b[off + 3] * 0x1000000) as u32
}

/// Appends the four bytes of `x`, least significant first.
pub fn push_le32(out: &mut Vec<u8>, x: u32)
    ensures
        final(out)@ == old(out)@ + spec_le_bytes32(x),
{
    let b0 = (x & 0xFF) as u8;
    let b1 = ((x >> 8u32) & 0xFF) as u8;
    let b2 = ((x >> 16u32) & 0xFF) as u8;
    let b3 = ((x >> 24u32) & 0xFF) as u8;
    proof {
        assert((x & 0xFF) == x % 0x100 && ((x >> 8u32) & 0xFF) == (x / 0x100) % 0x100
            && ((x >> 16u32) & 0xFF) == (x / 0x10000) % 0x100
            && ((x >> 24u32) & 0xFF) == (x / 0x1000000) % 0x100) by (bit_vector);
    }
    out.push(b0);
    out.push(b1);
    out.push(b2);
    out.push(b3);
    proof {
        assert(out@ =~= old(out)@ + spec_le_bytes32(x));
    }
}

/// Reads the word stored at `off`, least significant byte first.
pub fn read_le_u32(bytes: &Vec<u8>, off: usize) -> (r: u32)
    requires
        off + 4 <= bytes@.len(),
    ensures
        r == spec_le_u32(bytes@, off as int),
{
    let n = bytes.len();
    let b0 = bytes[off] as u32;
    let b1 = bytes[off + 1] as u32;
    let b2 = bytes[off + 2] as u32;
    let b3 = bytes[off + 3] as u32;
    proof {
        assert(b0 < 0x100 && b1 < 0x100 && b2 < 0x100 && b3 < 0x100 ==> (b0 | (b1 << 8u32) | (
        b2 << 16u32) | (b3 << 24u32)) == b0 + b1 * 0x100 + b2 * 0x10000 + b3 * 0x1000000)
            by (bit_vector);
    }
    b0 | (b1 << 8u32) | (b2 << 16u32) | (b3 << 24u32)
}

/// The half-word read from two bytes, least significant first.
pub open spec fn spec_le_u16(b: Seq<u8>, off: int) -> u16 {
    (b[off] + b[off + 1] * 0x100) as u16
}

/// Reads the half-word stored at `off`, least significant byte first.
pub fn read_le_u16(bytes: &Vec<u8>, off: usize) -> (r: u16)
    requires
        off + 2 <= bytes@.len(),
    ensures
        r == spec_le_u16(bytes@, off as int),
{
    let n = bytes.len();
    let b0 = bytes[off] as u16;
    let b1 = bytes[off + 1] as u16;
    proof {
        assert(b0 < 0x100 && b1 < 0x100 ==> (b0 | (b1 << 8u16)) == b0 + b1 * 0x100)
            by (bit_vector);
    }
    b0 | (b1 << 8u16)
}

/// One data block of a file: its header words and its payload bytes, of
/// which the first `usage` carry file content.
#[derive(Debug)]
pub struct DataBlock {
    /// Position of the block in the image.
    pub index: u32,
    /// How many payload bytes carry file content.
    pub usage: u32,
    /// Checksum over the header words (checksum field read as zero) and
    /// the payload.
    pub checksum: u32,
    /// The payload bytes.
    pub data: Vec<u8>,
}

impl DataBlock {
    /// The payload has its fixed size and `usage` stays within it.
    pub open spec fn wf(&self) -> bool {
        &&& self.data@.len() == BLK_DATA_SIZE
        &&& self.usage <= BLK_DATA_SIZE
    }

    /// The file content the block carries.
    pub open spec fn used_bytes(&self) -> Seq<u8> {
        self.data@.subrange(0, self.usage as int)
    }

    /// Reads up to `len` bytes of content starting at `initial_cursor`.
    pub fn read(&self, len: usize, initial_cursor: usize) -> (r: Vec<u8>)
        requires
            self.wf(),
        ensures
            initial_cursor >= self.usage ==> r@ == Seq::<u8>::empty(),
            initial_cursor < self.usage ==> r@ == self.used_bytes().subrange(
                initial_cursor as int,
                vstd::math::min(self.usage as int, initial_cursor + len),
            ),
    {
        let mut out: Vec<u8> = Vec::new();
        if initial_cursor >= self.usage as usize {
            return out;
        }
        let end = if (self.usage as usize) - initial_cursor < len {
            self.usage as usize
        } else {
            initial_cursor + len
        };
        let mut i: usize = initial_cursor;
        while i < end
            invariant
                initial_cursor <= i <= end,
                end <= self.usage,
                self.wf(),
                out@ == self.data@.subrange(initial_cursor as int, i as int),
            decreases end - i,
        {
            out.push(self.data[i]);
            proof {
                assert(out@ =~= self.data@.subrange(initial_cursor as int, i + 1));
            }
            i += 1;
        }
        proof {
            assert(out@ =~= self.used_bytes().subrange(
                initial_cursor as int,
                vstd::math::min(self.usage as int, initial_cursor + len),
            ));
        }
        out
    }

    /// The bytes the block's checksum is computed over: the two leading
    /// header words, the checksum field read as zero, and the payload.
    pub open spec fn check_bytes(&self) -> Seq<u8> {
        spec_le_bytes32(self.index) + spec_le_bytes32(self.usage) + spec_le_bytes32(0)
            + self.data@
    }

    /// Checks the block's checksum.
    pub fn validate(&self) -> (r: Result<(), Error>)
        ensures
            r is Ok <==> self.checksum == spec_adler32(self.check_bytes()),
            r is Err ==> r == Err::<(), Error>(Error::InvalidChecksum),
    {
        let mut bytes: Vec<u8> = Vec::new();
        push_le32(&mut bytes, self.index);
        push_le32(&mut bytes, self.usage);
        push_le32(&mut bytes, 0);
        let mut i: usize = 0;
        while i < self.data.len()
            invariant
                i <= self.data@.len(),
                bytes@ == spec_le_bytes32(self.index) + spec_le_bytes32(self.usage)
                    + spec_le_bytes32(0) + self.data@.subrange(0, i as int),
            decreases self.data@.len() - i,
        {
            bytes.push(self.data[i]);
            proof {
                assert(bytes@ =~= spec_le_bytes32(self.index) + spec_le_bytes32(self.usage)
                    + spec_le_bytes32(0) + self.data@.subrange(0, i + 1));
            }
            i += 1;
        }
        proof {
            assert(bytes@ =~= self.check_bytes());
        }
        let checksum = adler_checksum(&bytes);
        if checksum != self.checksum {
            Err(Error::InvalidChecksum)
        } else {
            Ok(())
        }
    }
}

/// Size of the superblock record at the start of the image.
pub const SUPERBLOCK_SIZE: usize = 56;

/// Size of an inode record at the start of its block.
pub const INODE_SIZE: usize = 168;

/// The mathematical value of an inode record.
#[verifier::ext_equal]
pub ghost struct InodeView {
    pub number: u32,
    pub filename: Seq<u8>,
    pub size: u32,
    pub idx: u32,
    pub blk_count: u32,
    pub next_inode: u32,
    pub d_blk_cnt: u32,
    pub i_blk_cnt: u32,
    pub d_blks: Seq<u32>,
    pub i_blks: Seq<u32>,
    pub checksum: u32,
}

/// One inode of the filesystem: a named file and the indices of the
/// blocks that carry its content.
#[derive(Debug)]
pub struct Inode {
    /// Number of the inode.
    pub number: u32,
    /// The name field: a zero-terminated string in a fixed-size slot.
    pub filename: Vec<u8>,
    /// Size of the file in bytes, as recorded.
    pub size: u32,
    /// Index of the inode's own block.
    pub idx: u32,
    /// Number of blocks recorded for the file.
    pub blk_count: u32,
    /// Index of the next inode's block; zero ends the chain.
    pub next_inode: u32,
    /// How many direct block references are in use.
    pub d_blk_cnt: u32,
    /// How many indirect block references are in use.
    pub i_blk_cnt: u32,
    /// The direct block references.
    pub d_blks: Vec<u32>,
    /// The indirect block references.
    pub i_blks: Vec<u32>,
    /// Checksum over the record up to this field.
    pub checksum: u32,
}

impl View for Inode {
    type V = InodeView;

    open spec fn view(&self) -> InodeView {
        InodeView {
            number: self.number,
            filename: self.filename@,
            size: self.size,
            idx: self.idx,
            blk_count: self.blk_count,
            next_inode: self.next_inode,
            d_blk_cnt: self.d_blk_cnt,
            i_blk_cnt: self.i_blk_cnt,
            d_blks: self.d_blks@,
            i_blks: self.i_blks@,
            checksum: self.checksum,
        }
    }
}

/// The inode record stored at the start of a block.
pub open spec fn spec_parse_inode(b: Seq<u8>) -> InodeView {
    InodeView {
        number: spec_le_u32(b, 0),
        filename: b.subrange(4, 36),
        size: spec_le_u32(b, 36),
        idx: spec_le_u32(b, 40),
        blk_count: spec_le_u32(b, 44),
        next_inode: spec_le_u32(b, 48),
        d_blk_cnt: spec_le_u32(b, 52),
        i_blk_cnt: spec_le_u32(b, 56),
        d_blks: Seq::new(10, |k: int| spec_le_u32(b, 60 + 4 * k)),
        i_blks: Seq::new(16, |k: int| spec_le_u32(b, 100 + 4 * k)),
        checksum: spec_le_u32(b, 164),
    }
}

/// Decodes the inode record at the start of a block.
pub fn parse_inode(block: &Vec<u8>) -> (r: Inode)
    requires
        block@.len() >= INODE_SIZE,
    ensures
        r@ == spec_parse_inode(block@),
{
    let filename = copy_range(block, 4, 36);
    let mut d_blks: Vec<u32> = Vec::new();
    let mut k: usize = 0;
    while k < 10
        invariant
            k <= 10,
            block@.len() >= INODE_SIZE,
            d_blks@ == Seq::new(k as nat, |j: int| spec_le_u32(block@, 60 + 4 * j)),
        decreases 10 - k,
    {
        d_blks.push(read_le_u32(block, 60 + 4 * k));
        proof {
            assert(d_blks@ =~= Seq::new((k + 1) as nat, |j: int| spec_le_u32(block@, 60 + 4 * j)));
        }
        k += 1;
    }
    let mut i_blks: Vec<u32> = Vec::new();
    let mut k: usize = 0;
    while k < 16
        invariant
            k <= 16,
            block@.len() >= INODE_SIZE,
            i_blks@ == Seq::new(k as nat, |j: int| spec_le_u32(block@, 100 + 4 * j)),
        decreases 16 - k,
    {
        i_blks.push(read_le_u32(block, 100 + 4 * k));
        proof {
            assert(i_blks@ =~= Seq::new((k + 1) as nat, |j: int| spec_le_u32(block@, 100 + 4 * j)));
        }
        k += 1;
    }
    let r = Inode {
        number: read_le_u32(block, 0),
        filename,
        size: read_le_u32(block, 36),
        idx: read_le_u32(block, 40),
        blk_count: read_le_u32(block, 44),
        next_inode: read_le_u32(block, 48),
        d_blk_cnt: read_le_u32(block, 52),
        i_blk_cnt: read_le_u32(block, 56),
        d_blks,
        i_blks,
        checksum: read_le_u32(block, 164),
    };
    proof {
        assert(r@ =~= spec_parse_inode(block@));
    }
    r
}

/// How many payload bytes of a raw data block carry file content.
pub open spec fn spec_block_usage(b: Seq<u8>) -> int {
    spec_le_u32(b, 4) as int
}

/// The file content a raw data block carries.
pub open spec fn spec_block_used(b: Seq<u8>) -> Seq<u8> {
    b.subrange(12, 12 + spec_block_usage(b))
}

/// A raw data block is sound: its recorded usage fits its payload and
/// its checksum holds (the checksum field itself is read as zero).
pub open spec fn spec_datablock_ok(b: Seq<u8>) -> bool {
    &&& spec_block_usage(b) <= BLK_DATA_SIZE
    &&& spec_le_u32(b, 8) == spec_adler32(
        b.subrange(0, 8) + spec_le_bytes32(0) + b.subrange(12, BLK_SIZE as int),
    )
}

/// Reading a word and writing it back gives the same four bytes.
pub proof fn lemma_le_roundtrip(b: Seq<u8>, off: int)
    requires
        0 <= off,
        off + 4 <= b.len(),
    ensures
        spec_le_bytes32(spec_le_u32(b, off)) =~= b.subrange(off, off + 4),
{
    let b0 = b[off];
    let b1 = b[off + 1];
    let b2 = b[off + 2];
    let b3 = b[off + 3];
    assert(b0 < 0x100 && b1 < 0x100 && b2 < 0x100 && b3 < 0x100 ==> {
        let x = (b0 + b1 * 0x100 + b2 * 0x10000 + b3 * 0x1000000) as u32;
        x % 0x100 == b0 && (x / 0x100) % 0x100 == b1 && (x / 0x10000) % 0x100 == b2 && (x
            / 0x1000000) % 0x100 == b3
    }) by (bit_vector);
}

/// Decodes a raw data block.
pub fn parse_datablock(block: &Vec<u8>) -> (r: DataBlock)
    requires
        block@.len() == BLK_SIZE,
    ensures
        r.index == spec_le_u32(block@, 0),
        r.usage == spec_le_u32(block@, 4),
        r.checksum == spec_le_u32(block@, 8),
        r.data@ == block@.subrange(12, BLK_SIZE as int),
        r.usage <= BLK_DATA_SIZE ==> r.wf() && r.used_bytes() == spec_block_used(block@),
{
    let r = DataBlock {
        index: read_le_u32(block, 0),
        usage: read_le_u32(block, 4),
        checksum: read_le_u32(block, 8),
        data: copy_range(block, 12, BLK_SIZE),
    };
    proof {
        if r.usage <= BLK_DATA_SIZE {
            assert(r.used_bytes() =~= spec_block_used(block@));
        }
    }
    r
}

/// The inode record's checksum holds.
pub open spec fn spec_inode_csum_ok(b: Seq<u8>) -> bool {
    spec_le_u32(b, 164) == spec_adler32(b.subrange(0, 164))
}

/// The inode's references stay inside the image.
pub open spec fn spec_inode_bounds_ok(v: InodeView, blk_cnt: int) -> bool {
    &&& v.d_blk_cnt < MAX_DIRECT_BLK
    &&& v.i_blk_cnt < MAX_INDIRECT_BLK
    &&& v.next_inode < blk_cnt
    &&& forall|k: int| 0 <= k < v.d_blk_cnt ==> v.d_blks[k] < blk_cnt
    &&& forall|k: int| 0 <= k < v.i_blk_cnt ==> v.i_blks[k] < blk_cnt
}

/// The inode at block `idx` is sound: its checksum holds, its references
/// stay inside the image, and every data block it references is sound.
pub open spec fn spec_inode_ok(blocks: Seq<Seq<u8>>, idx: int) -> bool {
    let v = spec_parse_inode(blocks[idx]);
    &&& spec_inode_csum_ok(blocks[idx])
    &&& spec_inode_bounds_ok(v, blocks.len() as int)
    &&& forall|k: int| 0 <= k < v.d_blk_cnt ==> spec_datablock_ok(
        blocks[#[trigger] v.d_blks[k] as int],
    )
}

/// The inodes of the chain that starts at block `idx`, in order. The
/// fuel bounds the walk by the number of blocks, so a chain that loops
/// back on itself is cut off rather than followed forever.
pub open spec fn spec_chain(blocks: Seq<Seq<u8>>, idx: int, fuel: nat) -> Seq<InodeView>
    decreases fuel,
{
    if fuel == 0 || idx == 0 || idx >= blocks.len() {
        Seq::<InodeView>::empty()
    } else {
        seq![spec_parse_inode(blocks[idx])] + spec_chain(
            blocks,
            spec_parse_inode(blocks[idx]).next_inode as int,
            (fuel - 1) as nat,
        )
    }
}

/// Every inode of the chain that starts at block `idx` is sound.
pub open spec fn spec_chain_ok(blocks: Seq<Seq<u8>>, idx: int, fuel: nat) -> bool
    decreases fuel,
{
    if fuel == 0 || idx == 0 || idx >= blocks.len() {
        true
    } else {
        &&& spec_inode_ok(blocks, idx)
        &&& spec_chain_ok(blocks, spec_parse_inode(blocks[idx]).next_inode as int, (fuel - 1) as nat)
    }
}

/// The content of the file whose data blocks are listed in `ids`.
pub open spec fn spec_file_contents(blocks: Seq<Seq<u8>>, ids: Seq<u32>) -> Seq<u8>
    decreases ids.len(),
{
    if ids.len() == 0 {
        Seq::<u8>::empty()
    } else {
        spec_block_used(blocks[ids[0] as int]) + spec_file_contents(blocks, ids.drop_first())
    }
}

/// Listing one data block more appends exactly its content.
pub proof fn lemma_file_contents_take_succ(blocks: Seq<Seq<u8>>, ids: Seq<u32>, k: int)
    requires
        0 <= k < ids.len(),
    ensures
        spec_file_contents(blocks, ids.take(k + 1)) =~= spec_file_contents(blocks, ids.take(k))
            + spec_block_used(blocks[ids[k] as int]),
    decreases k,
{
    if k == 0 {
        assert(ids.take(0) =~= Seq::<u32>::empty());
        assert(ids.take(1) =~= seq![ids[0]]);
        assert(ids.take(1).drop_first() =~= Seq::<u32>::empty());
    } else {
        lemma_file_contents_take_succ(blocks, ids.drop_first(), k - 1);
        assert(ids.take(k + 1).drop_first() =~= ids.drop_first().take(k));
        assert(ids.take(k).drop_first() =~= ids.drop_first().take(k - 1));
        assert(spec_file_contents(blocks, ids.take(k + 1)) =~= spec_block_used(
            blocks[ids[0] as int],
        ) + spec_file_contents(blocks, ids.drop_first().take(k)));
        assert(spec_file_contents(blocks, ids.take(k)) =~= spec_block_used(blocks[ids[0] as int])
            + spec_file_contents(blocks, ids.drop_first().take(k - 1)));
    }
}

impl Inode {
    /// The reference vectors have their fixed sizes.
    pub open spec fn wf(&self) -> bool {
        &&& self.filename@.len() == FNAME_SIZE
        &&& self.d_blks@.len() == MAX_DIRECT_BLK
        &&& self.i_blks@.len() == MAX_INDIRECT_BLK
    }

    /// The direct block references in use.
    pub fn direct_blocks_idx(&self) -> (r: Vec<u32>)
        requires
            self.wf(),
            self.d_blk_cnt < MAX_DIRECT_BLK,
        ensures
            r@ == self@.d_blks.take(self@.d_blk_cnt as int),
    {
        let cnt = self.d_blk_cnt as usize;
        let mut out: Vec<u32> = Vec::new();
        let mut k: usize = 0;
        while k < cnt
            invariant
                k <= cnt,
                cnt <= self.d_blks@.len(),
                out@ == self@.d_blks.take(k as int),
            decreases cnt - k,
        {
            out.push(self.d_blks[k]);
            proof {
                assert(out@ =~= self@.d_blks.take(k + 1));
            }
            k += 1;
        }
        out
    }

    /// The indirect block references in use.
    pub fn indirect_blocks_idx(&self) -> (r: Vec<u32>)
        requires
            self.wf(),
            self.i_blk_cnt < MAX_INDIRECT_BLK,
        ensures
            r@ == self@.i_blks.take(self@.i_blk_cnt as int),
    {
        let cnt = self.i_blk_cnt as usize;
        let mut out: Vec<u32> = Vec::new();
        let mut k: usize = 0;
        while k < cnt
            invariant
                k <= cnt,
                cnt <= self.i_blks@.len(),
                out@ == self@.i_blks.take(k as int),
            decreases cnt - k,
        {
            out.push(self.i_blks[k]);
            proof {
                assert(out@ =~= self@.i_blks.take(k + 1));
            }
            k += 1;
        }
        out
    }

    /// The file's name: the zero-terminated prefix of the name field.
    pub fn filename(&self) -> (r: Vec<u8>)
        ensures
            r@ == spec_cstr(self@.filename),
    {
        cstr_at(&self.filename, 0)
    }
}

/// A raw data block referenced by an inode view is within bounds and
/// sound.
pub open spec fn spec_inode_view_ok(blocks: Seq<Seq<u8>>, v: InodeView) -> bool {
    &&& spec_inode_bounds_ok(v, blocks.len() as int)
    &&& forall|k: int| 0 <= k < v.d_blk_cnt ==> spec_datablock_ok(
        blocks[#[trigger] v.d_blks[k] as int],
    )
}

/// Every member of a sound chain is itself within bounds with sound data
/// blocks.
pub proof fn lemma_chain_ok_at(blocks: Seq<Seq<u8>>, idx: int, fuel: nat, k: int)
    requires
        spec_chain_ok(blocks, idx, fuel),
        0 <= k < spec_chain(blocks, idx, fuel).len(),
    ensures
        spec_inode_view_ok(blocks, spec_chain(blocks, idx, fuel)[k]),
    decreases fuel,
{
    if k == 0 {
        assert(spec_chain(blocks, idx, fuel)[0] == spec_parse_inode(blocks[idx]));
    } else {
        lemma_chain_ok_at(
            blocks,
            spec_parse_inode(blocks[idx]).next_inode as int,
            (fuel - 1) as nat,
            k - 1,
        );
    }
}

/// The superblock: the image's header record, and the image itself cut
/// into blocks.
#[derive(Debug)]
pub struct Superblock {
    /// Magic number of the image.
    pub magic: u32,
    /// The volume-name field: a zero-terminated string in a fixed slot.
    pub name: Vec<u8>,
    /// Creation time of the volume, as the raw stored word.
    pub ctime: u32,
    /// Number of blocks of the image.
    pub blk_cnt: u32,
    /// Number of inodes recorded.
    pub inode_cnt: u32,
    /// Index of the block of the first inode; zero for none.
    pub inode_idx: u32,
    /// Checksum over the header record up to this field.
    pub checksum: u32,
    /// The image, cut into blocks of `BLK_SIZE` bytes.
    pub blocks: Vec<Vec<u8>>,
}

/// Number of blocks the image's header declares.
pub open spec fn spec_sb_blk_cnt(image: Seq<u8>) -> u32 {
    spec_le_u32(image, 40)
}

/// The image cut into blocks.
pub open spec fn spec_image_blocks(image: Seq<u8>) -> Seq<Seq<u8>> {
    Seq::new(
        spec_sb_blk_cnt(image) as nat,
        |i: int| image.subrange(i * (BLK_SIZE as int), (i + 1) * (BLK_SIZE as int)),
    )
}

/// The header of the image is sound: the image holds the whole record,
/// the magic number and the checksum match, and the declared blocks all
/// lie inside the image.
pub open spec fn spec_header_ok(image: Seq<u8>) -> bool {
    &&& image.len() >= SUPERBLOCK_SIZE
    &&& spec_le_u32(image, 0) == MAGIC
    &&& spec_le_u32(image, 52) == spec_adler32(image.subrange(0, 52))
    &&& image.len() >= spec_sb_blk_cnt(image) * (BLK_SIZE as int)
}

/// A whole image is sound: its header is, and so is every inode of its
/// chain.
pub open spec fn spec_image_ok(image: Seq<u8>) -> bool {
    &&& spec_header_ok(image)
    &&& spec_chain_ok(
        spec_image_blocks(image),
        spec_le_u32(image, 48) as int,
        spec_sb_blk_cnt(image) as nat,
    )
}

impl Superblock {
    /// The volume-name field as stored.
    pub open spec fn name_bytes(&self) -> Seq<u8> {
        self.name@
    }

    /// The image's blocks.
    pub open spec fn blocks_view(&self) -> Seq<Seq<u8>> {
        self.blocks@.map_values(|b: Vec<u8>| b@)
    }

    /// There are as many blocks as the header declares and each has its
    /// fixed size.
    pub open spec fn wf(&self) -> bool {
        &&& self.blocks_view().len() == self.blk_cnt
        &&& forall|i: int| 0 <= i < self.blocks_view().len() ==> (#[trigger] self.blocks_view()[i]).len()
            == BLK_SIZE
        &&& self.name_bytes().len() == NAME_SIZE
    }

    /// Every inode of the chain is sound.
    pub open spec fn validated(&self) -> bool {
        spec_chain_ok(self.blocks_view(), self.inode_idx as int, self.blk_cnt as nat)
    }

    /// The inodes of the chain, as views, in order.
    pub open spec fn spec_inodes(&self) -> Seq<InodeView> {
        spec_chain(self.blocks_view(), self.inode_idx as int, self.blk_cnt as nat)
    }

    /// Decodes and checks the image's header: the record must fit, the
    /// magic number and the checksum must match, and the declared blocks
    /// must all lie inside the image. Inodes are not checked here.
    #[verifier::loop_isolation(false)]
    pub fn checked(image: Vec<u8>) -> (r: Result<Superblock, Error>)
        ensures
            r is Ok <==> spec_header_ok(image@),
            image@.len() < SUPERBLOCK_SIZE ==> r == Err::<Superblock, Error>(Error::MemTooSmall),
            image@.len() >= SUPERBLOCK_SIZE && spec_le_u32(image@, 0) != MAGIC ==> r == Err::<
                Superblock,
                Error,
            >(Error::InvalidMagic),
            image@.len() >= SUPERBLOCK_SIZE && spec_le_u32(image@, 0) == MAGIC && spec_le_u32(
                image@,
                52,
            ) != spec_adler32(image@.subrange(0, 52)) ==> r == Err::<Superblock, Error>(
                Error::InvalidChecksum,
            ),
            spec_header_ok(image@) ==> (r matches Ok(sb) && sb.wf() && sb.magic == MAGIC
                && sb.name_bytes() == image@.subrange(4, 36) && sb.ctime == spec_le_u32(image@, 36)
                && sb.blk_cnt == spec_sb_blk_cnt(image@) && sb.inode_cnt == spec_le_u32(image@, 44)
                && sb.inode_idx == spec_le_u32(image@, 48) && sb.checksum == spec_le_u32(image@, 52)
                && sb.blocks_view() == spec_image_blocks(image@)),
    {
        if image.len() < SUPERBLOCK_SIZE {
            return Err(Error::MemTooSmall);
        }
        let magic = read_le_u32(&image, 0);
        if magic != MAGIC {
            return Err(Error::InvalidMagic);
        }
        let header = copy_range(&image, 0, 52);
        let checksum = read_le_u32(&image, 52);
        if checksum != adler_checksum(&header) {
            return Err(Error::InvalidChecksum);
        }
        let blk_cnt = read_le_u32(&image, 40);
        if (image.len() as u64) < (blk_cnt as u64) * (BLK_SIZE as u64) {
            return Err(Error::MemTooSmall);
        }
        let name = copy_range(&image, 4, 36);
        let ctime = read_le_u32(&image, 36);
        let inode_cnt = read_le_u32(&image, 44);
        let inode_idx = read_le_u32(&image, 48);
        let mut blocks: Vec<Vec<u8>> = Vec::new();
        let cnt = blk_cnt as usize;
        let total = image.len();
        let mut i: usize = 0;
        while i < cnt
            invariant
                i <= cnt,
                blocks@.len() == i,
                forall|j: int| 0 <= j < i ==> (#[trigger] blocks@[j])@ == image@.subrange(
                    j * (BLK_SIZE as int),
                    (j + 1) * (BLK_SIZE as int),
                ),
            decreases cnt - i,
        {
            proof {
                assert((i + 1) * (BLK_SIZE as int) <= cnt * (BLK_SIZE as int)) by (nonlinear_arith)
                    requires i + 1 <= cnt;
                assert(i * (BLK_SIZE as int) <= (i + 1) * (BLK_SIZE as int)) by (nonlinear_arith);
            }
            let block = copy_range(&image, i * BLK_SIZE, (i + 1) * BLK_SIZE);
            blocks.push(block);
            i += 1;
        }
        let sb = Superblock { magic, name, ctime, blk_cnt, inode_cnt, inode_idx, checksum, blocks };
        proof {
            assert(sb.blocks_view() =~= spec_image_blocks(image@));
        }
        Ok(sb)
    }

    /// The volume's name: the zero-terminated prefix of the name field.
    pub fn name(&self) -> (r: Vec<u8>)
        ensures
            r@ == spec_cstr(self.name_bytes()),
    {
        cstr_at(&self.name, 0)
    }

    /// Walks the inode chain and decodes every inode, in order.
    #[verifier::loop_isolation(false)]
    pub fn inodes(&self) -> (r: Vec<Inode>)
        requires
            self.wf(),
        ensures
            r@.map_values(|i: Inode| i@) == self.spec_inodes(),
            forall|k: int| 0 <= k < r@.len() ==> (#[trigger] r@[k]).wf(),
    {
        let mut out: Vec<Inode> = Vec::new();
        let blk_cnt = self.blk_cnt as usize;
        let mut idx: usize = self.inode_idx as usize;
        let mut steps: usize = 0;
        while idx != 0 && idx < blk_cnt && steps < blk_cnt
            invariant
                self.wf(),
                steps <= blk_cnt,
                blk_cnt == self.blk_cnt,
                self.spec_inodes() == out@.map_values(|i: Inode| i@) + spec_chain(
                    self.blocks_view(),
                    idx as int,
                    (blk_cnt - steps) as nat,
                ),
                forall|k: int| 0 <= k < out@.len() ==> (#[trigger] out@[k]).wf(),
            decreases blk_cnt - steps,
        {
            let ino = parse_inode(&self.blocks[idx]);
            let next = ino.next_inode as usize;
            proof {
                assert(self.blocks_view()[idx as int] == self.blocks@[idx as int]@);
                assert((out@.push(ino)).map_values(|i: Inode| i@) =~= out@.map_values(
                    |i: Inode| i@,
                ).push(ino@));
                assert(self.spec_inodes() =~= out@.map_values(|i: Inode| i@).push(ino@)
                    + spec_chain(
                    self.blocks_view(),
                    next as int,
                    (blk_cnt - steps - 1) as nat,
                ));
            }
            out.push(ino);
            idx = next;
            steps += 1;
        }
        proof {
            assert(self.spec_inodes() =~= out@.map_values(|i: Inode| i@));
        }
        out
    }

    /// Checks every inode of the chain: its checksum, its bounds, and
    /// the soundness of every data block it references.
    #[verifier::rlimit(50)]
    #[verifier::loop_isolation(false)]
    pub fn validate(&self) -> (r: Result<(), Error>)
        requires
            self.wf(),
        ensures
            r is Ok <==> self.validated(),
            r is Err ==> r == Err::<(), Error>(Error::InvalidChecksum) || r == Err::<(), Error>(
                Error::OutOfBounds,
            ),
    {
        proof {
            assert(self.blocks@.len() == self.blk_cnt);
        }
        let blk_cnt = self.blk_cnt as usize;
        let mut idx: usize = self.inode_idx as usize;
        let mut steps: usize = 0;
        while idx != 0 && idx < blk_cnt && steps < blk_cnt
            invariant
                self.wf(),
                steps <= blk_cnt,
                blk_cnt == self.blk_cnt,
                self.validated() == spec_chain_ok(
                    self.blocks_view(),
                    idx as int,
                    (blk_cnt - steps) as nat,
                ),
            decreases blk_cnt - steps,
        {
            let ghost bv = self.blocks_view();
            let block = &self.blocks[idx];
            proof {
                assert(bv[idx as int] == self.blocks@[idx as int]@);
            }
            let header = copy_range(block, 0, 164);
            if adler_checksum(&header) != read_le_u32(block, 164) {
                proof {
                    assert(!spec_inode_csum_ok(bv[idx as int]));
                    assert(!spec_inode_ok(bv, idx as int));
                }
                return Err(Error::InvalidChecksum);
            }
            let ino = parse_inode(block);
            if ino.d_blk_cnt as usize >= MAX_DIRECT_BLK || ino.i_blk_cnt as usize
                >= MAX_INDIRECT_BLK || ino.next_inode as usize >= blk_cnt {
                proof {
                    assert(!spec_inode_bounds_ok(ino@, blk_cnt as int));
                    assert(!spec_inode_ok(bv, idx as int));
                }
                return Err(Error::OutOfBounds);
            }
            let d_cnt = ino.d_blk_cnt as usize;
            let i_cnt = ino.i_blk_cnt as usize;
            let mut k: usize = 0;
            while k < d_cnt
                invariant
                    k <= d_cnt,
                    forall|j: int| 0 <= j < k ==> ino@.d_blks[j] < blk_cnt,
                decreases d_cnt - k,
            {
                if ino.d_blks[k] as usize >= blk_cnt {
                    proof {
                        assert(0 <= k < ino@.d_blk_cnt && !(ino@.d_blks[k as int] < blk_cnt as int));
                        assert(!spec_inode_bounds_ok(ino@, blk_cnt as int));
                        assert(!spec_inode_ok(bv, idx as int));
                    }
                    return Err(Error::OutOfBounds);
                }
                k += 1;
            }
            let mut k: usize = 0;
            while k < i_cnt
                invariant
                    k <= i_cnt,
                    forall|j: int| 0 <= j < k ==> ino@.i_blks[j] < blk_cnt,
                decreases i_cnt - k,
            {
                if ino.i_blks[k] as usize >= blk_cnt {
                    proof {
                        assert(0 <= k < ino@.i_blk_cnt && !(ino@.i_blks[k as int] < blk_cnt as int));
                        assert(!spec_inode_bounds_ok(ino@, blk_cnt as int));
                        assert(!spec_inode_ok(bv, idx as int));
                    }
                    return Err(Error::OutOfBounds);
                }
                k += 1;
            }
            let mut k: usize = 0;
            while k < d_cnt
                invariant
                    k <= d_cnt,
                    forall|j: int| 0 <= j < d_cnt ==> ino@.d_blks[j] < blk_cnt,
                    forall|j: int| 0 <= j < k ==> spec_datablock_ok(
                        bv[#[trigger] ino@.d_blks[j] as int],
                    ),
                decreases d_cnt - k,
            {
                let id = ino.d_blks[k] as usize;
                proof {
                    assert(ino@.d_blks[k as int] < blk_cnt);
                    assert(self.blocks@.len() == self.blk_cnt);
                }
                let dblock = &self.blocks[id];
                proof {
                    assert(bv[id as int] == self.blocks@[id as int]@);
                }
                let db = parse_datablock(dblock);
                if db.usage as usize > BLK_DATA_SIZE {
                    proof {
                        assert(!spec_datablock_ok(bv[id as int]));
                        assert(!spec_inode_ok(bv, idx as int));
                    }
                    return Err(Error::OutOfBounds);
                }
                match db.validate() {
                    Ok(()) => {
                        proof {
                            lemma_le_roundtrip(bv[id as int], 0);
                            lemma_le_roundtrip(bv[id as int], 4);
                            assert(db.check_bytes() =~= bv[id as int].subrange(0, 8)
                                + spec_le_bytes32(0) + bv[id as int].subrange(
                                12,
                                BLK_SIZE as int,
                            ));
                            assert(spec_datablock_ok(bv[id as int]));
                        }
                    }
                    Err(e) => {
                        proof {
                            lemma_le_roundtrip(bv[id as int], 0);
                            lemma_le_roundtrip(bv[id as int], 4);
                            assert(db.check_bytes() =~= bv[id as int].subrange(0, 8)
                                + spec_le_bytes32(0) + bv[id as int].subrange(
                                12,
                                BLK_SIZE as int,
                            ));
                            assert(!spec_datablock_ok(bv[id as int]));
                        }
                        proof {
                            assert(!spec_inode_ok(bv, idx as int));
                        }
                        return Err(Error::InvalidChecksum);
                    }
                }
                k += 1;
            }
            proof {
                assert(spec_inode_ok(bv, idx as int));
            }
            idx = ino.next_inode as usize;
            steps += 1;
        }
        Ok(())
    }

    /// A reader over the file of one inode: its data blocks, decoded, in
    /// order, with the cursor at the start.
    pub fn reader(&self, inode: &Inode) -> (r: DataBlockReader)
        requires
            self.wf(),
            inode.wf(),
            spec_inode_view_ok(self.blocks_view(), inode@),
            inode@.i_blk_cnt == 0,
        ensures
            r.wf(),
            r@.offset == 0,
            r@.contents == spec_file_contents(
                self.blocks_view(),
                inode@.d_blks.take(inode@.d_blk_cnt as int),
            ),
    {
        let blocks = inode.blocks(self);
        DataBlockReader::new(blocks)
    }
}

impl Inode {
    /// The decoded data blocks of the file, in order.
    #[verifier::loop_isolation(false)]
    pub fn blocks(&self, superblock: &Superblock) -> (r: Vec<DataBlock>)
        requires
            superblock.wf(),
            self.wf(),
            spec_inode_view_ok(superblock.blocks_view(), self@),
            self@.i_blk_cnt == 0,
        ensures
            r@.len() == self@.d_blk_cnt,
            r@.len() <= MAX_DIRECT_BLK,
            forall|k: int| 0 <= k < r@.len() ==> (#[trigger] r@[k]).wf(),
            contents_of(r@) == spec_file_contents(
                superblock.blocks_view(),
                self@.d_blks.take(self@.d_blk_cnt as int),
            ),
    {
        let ghost bv = superblock.blocks_view();
        let ids = self.direct_blocks_idx();
        let ghost all_ids = self@.d_blks.take(self@.d_blk_cnt as int);
        let mut out: Vec<DataBlock> = Vec::new();
        let mut k: usize = 0;
        while k < ids.len()
            invariant
                k <= ids@.len(),
                superblock.wf(),
                self.wf(),
                bv == superblock.blocks_view(),
                ids@ == all_ids,
                all_ids.len() == self@.d_blk_cnt,
                spec_inode_view_ok(bv, self@),
                all_ids == self@.d_blks.take(self@.d_blk_cnt as int),
                out@.len() == k,
                forall|j: int| 0 <= j < out@.len() ==> (#[trigger] out@[j]).wf(),
                contents_of(out@) == spec_file_contents(bv, all_ids.take(k as int)),
            decreases ids@.len() - k,
        {
            let id = ids[k] as usize;
            proof {
                assert(all_ids[k as int] == self@.d_blks[k as int]);
                assert(spec_datablock_ok(bv[id as int]));
                assert(bv[id as int] == superblock.blocks@[id as int]@);
            }
            let db = parse_datablock(&superblock.blocks[id]);
            proof {
                reader::lemma_contents_take_succ(out@.push(db), k as int);
                assert(out@.push(db).take(k as int) =~= out@);
                assert(out@.push(db).take(k + 1) =~= out@.push(db));
                lemma_file_contents_take_succ(bv, all_ids, k as int);
            }
            out.push(db);
            k += 1;
        }
        proof {
            assert(all_ids.take(all_ids.len() as int) =~= all_ids);
        }
        out
    }
}

/// The filesystem: nothing before boot hands an image over, the decoded
/// superblock afterwards.
#[derive(Debug)]
pub struct Kfs {
    /// The decoded superblock, once an image has been accepted.
    pub superblock: Option<Superblock>,
}

impl Kfs {
    /// A filesystem that has not been handed an image.
    pub fn invalid() -> (r: Kfs)
        ensures
            r.superblock is None,
    {
        Kfs { superblock: None }
    }

    /// Decodes and checks an image: the header first, then every inode
    /// of the chain. The superblock is kept as soon as the header is
    /// sound, as the boot path does, even when an inode check then
    /// fails.
    pub fn init(&mut self, image: Vec<u8>) -> (r: Result<(), Error>)
        ensures
            r is Ok <==> spec_image_ok(image@),
            spec_header_ok(image@) ==> (final(self).superblock matches Some(sb) && sb.wf()
                && sb.blocks_view() == spec_image_blocks(image@) && sb.inode_idx == spec_le_u32(
                image@,
                48,
            ) && sb.blk_cnt == spec_sb_blk_cnt(image@) && (spec_image_ok(image@)
                <==> sb.validated())),
            !spec_header_ok(image@) ==> final(self).superblock == old(self).superblock,
    {
        let sb = match Superblock::checked(image) {
            Ok(sb) => sb,
            Err(e) => {
                return Err(e);
            }
        };
        self.superblock = Some(sb);
        self.validate()
    }

    /// The decoded superblock; the filesystem must have been handed an
    /// image.
    pub fn superblock(&self) -> (r: &Superblock)
        requires
            self.superblock is Some,
        ensures
            *r == self.superblock->0,
    {
        match &self.superblock {
            Some(sb) => sb,
            None => vstd::pervasive::unreached(),
        }
    }

    /// Checks every inode of the held image's chain.
    pub fn validate(&self) -> (r: Result<(), Error>)
        requires
            self.superblock matches Some(sb) && sb.wf(),
        ensures
            r is Ok <==> self.superblock->0.validated(),
    {
        match &self.superblock {
            Some(sb) => sb.validate(),
            None => vstd::pervasive::unreached(),
        }
    }
}

} // verus!
