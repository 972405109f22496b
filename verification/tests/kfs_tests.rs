//! The filesystem: checksums, image decoding, and the file reader.

use redk::io::SeekFrom;
use redk::kfs::reader::DataBlockReader;
use redk::kfs::{adler_checksum, read_le_u32, DataBlock, Error, Kfs, BLK_DATA_SIZE, BLK_SIZE, MAGIC};

fn le32(out: &mut Vec<u8>, x: u32) {
    out.extend_from_slice(&x.to_le_bytes());
}

/// A data block over the given content bytes, checksummed.
fn make_data_block(index: u32, content: &[u8]) -> Vec<u8> {
    assert!(content.len() <= BLK_DATA_SIZE);
    let mut data = content.to_vec();
    data.resize(BLK_DATA_SIZE, 0);
    let mut check = Vec::new();
    le32(&mut check, index);
    le32(&mut check, content.len() as u32);
    le32(&mut check, 0);
    check.extend_from_slice(&data);
    let checksum = adler_checksum(&check);
    let mut block = Vec::new();
    le32(&mut block, index);
    le32(&mut block, content.len() as u32);
    le32(&mut block, checksum);
    block.extend_from_slice(&data);
    assert_eq!(block.len(), BLK_SIZE);
    block
}

/// An inode block naming one file over the given data block indices.
fn make_inode_block(number: u32, filename: &[u8], size: u32, idx: u32, next_inode: u32, d_blks: &[u32]) -> Vec<u8> {
    let mut body = Vec::new();
    le32(&mut body, number);
    let mut name = filename.to_vec();
    name.resize(32, 0);
    body.extend_from_slice(&name);
    le32(&mut body, size);
    le32(&mut body, idx);
    le32(&mut body, d_blks.len() as u32);
    le32(&mut body, next_inode);
    le32(&mut body, d_blks.len() as u32);
    le32(&mut body, 0);
    for k in 0..10 {
        le32(&mut body, d_blks.get(k).copied().unwrap_or(0));
    }
    for _ in 0..16 {
        le32(&mut body, 0);
    }
    assert_eq!(body.len(), 164);
    let checksum = adler_checksum(&body);
    let mut block = body;
    le32(&mut block, checksum);
    block.resize(BLK_SIZE, 0);
    block
}

/// A whole image: the superblock, one file named `file.bin` with the
/// given content, its inode in block 1 and its data in blocks 2...
pub fn make_image(filename: &[u8], content: &[u8]) -> Vec<u8> {
    let n_data = content.len().div_ceil(BLK_DATA_SIZE).max(1);
    let blk_cnt = (2 + n_data) as u32;
    let mut header = Vec::new();
    le32(&mut header, MAGIC);
    let mut name = b"volume".to_vec();
    name.resize(32, 0);
    header.extend_from_slice(&name);
    le32(&mut header, 0); // creation time
    le32(&mut header, blk_cnt);
    le32(&mut header, 1); // inode count
    le32(&mut header, 1); // first inode block
    let checksum = adler_checksum(&header);
    let mut image = header;
    le32(&mut image, checksum);
    image.resize(BLK_SIZE, 0);

    let d_blks: Vec<u32> = (0..n_data).map(|k| (2 + k) as u32).collect();
    image.extend_from_slice(&make_inode_block(1, filename, content.len() as u32, 1, 0, &d_blks));
    for k in 0..n_data {
        let lo = k * BLK_DATA_SIZE;
        let hi = ((k + 1) * BLK_DATA_SIZE).min(content.len());
        let piece = if lo < content.len() { &content[lo..hi] } else { &[][..] };
        image.extend_from_slice(&make_data_block((2 + k) as u32, piece));
    }
    assert_eq!(image.len(), blk_cnt as usize * BLK_SIZE);
    image
}

/// A reader over plain bytes, via one checksummed data block per chunk.
pub fn reader_over(content: &[u8]) -> DataBlockReader {
    let mut blocks = Vec::new();
    let mut lo = 0;
    loop {
        let hi = (lo + BLK_DATA_SIZE).min(content.len());
        let mut data = content[lo..hi].to_vec();
        let usage = data.len() as u32;
        data.resize(BLK_DATA_SIZE, 0);
        blocks.push(DataBlock { index: 0, usage, checksum: 0, data });
        lo += BLK_DATA_SIZE;
        if lo >= content.len() {
            break;
        }
    }
    DataBlockReader::new(blocks)
}

#[test]
fn superblock_len_and_header_errors() {
    // a header that fits but declares more blocks than the image holds
    let mut header = Vec::new();
    le32(&mut header, MAGIC);
    header.resize(36, 0);
    le32(&mut header, 0);
    le32(&mut header, 99); // the declared block count
    le32(&mut header, 0);
    le32(&mut header, 0);
    let checksum = adler_checksum(&header);
    let mut image = header;
    le32(&mut image, checksum);
    let mut fs = Kfs::invalid();
    assert_eq!(fs.init(image), Err(Error::MemTooSmall));
}

#[test]
fn elf_len_reports_the_file_size() {
    let content: Vec<u8> = (0..77u8).collect();
    let mut reader = reader_over(&content);
    assert_eq!(reader.seek(SeekFrom::Start(30)), Ok(30));
    assert_eq!(redk::elf::Elf::len(&mut reader), Ok(77));
    // the cursor is restored
    assert_eq!(reader.read(1), vec![30]);
}

#[test]
fn adler_checksum_known_values() {
    assert_eq!(adler_checksum(&Vec::new()), 1);
    assert_eq!(adler_checksum(&vec![0]), 65537);
    assert_eq!(adler_checksum(&b"Wikipedia".to_vec()), 0x11E60398);
    assert_eq!(adler_checksum(&b"abc".to_vec()), 38600999);
}

#[test]
fn read_le_u32_decodes() {
    let bytes = vec![0x78, 0x56, 0x34, 0x12, 0xFF];
    assert_eq!(read_le_u32(&bytes, 0), 0x12345678);
    assert_eq!(read_le_u32(&bytes, 1), 0xFF123456);
}

#[test]
fn init_accepts_a_sound_image() {
    let image = make_image(b"file.bin", b"hello, filesystem");
    let mut fs = Kfs::invalid();
    assert!(fs.init(image).is_ok());
    let sb = fs.superblock();
    assert_eq!(sb.magic, MAGIC);
    assert_eq!(sb.name(), b"volume".to_vec());
    let inodes = sb.inodes();
    assert_eq!(inodes.len(), 1);
    assert_eq!(inodes[0].filename(), b"file.bin".to_vec());
}

#[test]
fn init_rejects_a_wrong_magic() {
    let mut image = make_image(b"file.bin", b"x");
    image[0] ^= 0xFF;
    let mut fs = Kfs::invalid();
    assert_eq!(fs.init(image), Err(Error::InvalidMagic));
}

#[test]
fn init_rejects_a_corrupt_header() {
    let mut image = make_image(b"file.bin", b"x");
    image[40] ^= 1; // block count, covered by the header checksum
    let mut fs = Kfs::invalid();
    assert_eq!(fs.init(image), Err(Error::InvalidChecksum));
}

#[test]
fn init_rejects_a_short_image() {
    let mut fs = Kfs::invalid();
    assert_eq!(fs.init(vec![0; 10]), Err(Error::MemTooSmall));
}

#[test]
fn init_rejects_a_corrupt_data_block() {
    let mut image = make_image(b"file.bin", b"some file content");
    let flip_at = 2 * BLK_SIZE + 100; // inside the data block's payload
    image[flip_at] ^= 0xFF;
    let mut fs = Kfs::invalid();
    assert_eq!(fs.init(image), Err(Error::InvalidChecksum));
}

#[test]
fn reader_reads_across_blocks() {
    let mut content = Vec::new();
    for i in 0..9000 {
        content.push((i % 251) as u8);
    }
    let image = make_image(b"big.bin", &content);
    let mut fs = Kfs::invalid();
    assert!(fs.init(image).is_ok());
    let sb = fs.superblock();
    let inodes = sb.inodes();
    let mut reader = sb.reader(&inodes[0]);
    let first = reader.read(5000);
    assert_eq!(first, content[..5000].to_vec());
    let rest = reader.read(9000);
    assert_eq!(rest, content[5000..].to_vec());
    let eof = reader.read(10);
    assert_eq!(eof, Vec::<u8>::new());
}

#[test]
fn seek_positions_the_cursor() {
    let content: Vec<u8> = (0..200u8).collect();
    let mut reader = reader_over(&content);
    assert_eq!(reader.seek(SeekFrom::Start(50)), Ok(50));
    assert_eq!(reader.read(3), vec![50, 51, 52]);
    assert_eq!(reader.seek(SeekFrom::Current(-3)), Ok(50));
    assert_eq!(reader.read(1), vec![50]);
    assert_eq!(reader.seek(SeekFrom::End(-10)), Ok(190));
    assert_eq!(reader.read(100), (190..200u8).collect::<Vec<u8>>());
}

#[test]
fn seek_clamps_to_the_file() {
    let content: Vec<u8> = (0..100u8).collect();
    let mut reader = reader_over(&content);
    assert_eq!(reader.seek(SeekFrom::Start(5000)), Ok(100));
    assert_eq!(reader.read(1), Vec::<u8>::new());
    // a move below the start of the file wraps past the end
    assert_eq!(reader.seek(SeekFrom::Start(0)), Ok(0));
    assert_eq!(reader.seek(SeekFrom::Current(-1)), Ok(100));
}

#[test]
fn seek_then_read_equals_read_and_discard() {
    // cursor-positioning equivalence over a concrete file
    let content: Vec<u8> = (0..150u8).collect();
    let k = 40;
    let len = 20;

    let mut seeker = reader_over(&content);
    assert_eq!(seeker.seek(SeekFrom::Start(k)), Ok(k));
    let via_seek = seeker.read(len);

    let mut discarder = reader_over(&content);
    let discarded = discarder.read(k);
    assert_eq!(discarded.len(), k);
    let via_read = discarder.read(len);

    assert_eq!(via_seek, via_read);
    assert_eq!(via_seek, content[k..k + len].to_vec());
}

#[test]
fn the_capability_traits_drive_the_reader() {
    let content: Vec<u8> = (0..60u8).collect();
    let mut handle = reader_over(&content);
    let pos = <DataBlockReader as redk::io::Seek>::seek(&mut handle, SeekFrom::Start(10));
    assert_eq!(pos, Ok(10));
    let bytes = <DataBlockReader as redk::io::Read>::read(&mut handle, 4);
    assert_eq!(bytes, vec![10, 11, 12, 13]);
}

#[test]
fn data_block_read_respects_usage() {
    let mut data = b"abcdef".to_vec();
    let usage = data.len() as u32;
    data.resize(BLK_DATA_SIZE, 0);
    let block = DataBlock { index: 7, usage, checksum: 0, data };
    assert_eq!(block.read(4, 0), b"abcd".to_vec());
    assert_eq!(block.read(10, 4), b"ef".to_vec());
    assert_eq!(block.read(10, 6), Vec::<u8>::new());
}

#[test]
fn data_block_validate_checks_the_checksum() {
    let raw = make_data_block(3, b"payload");
    let mut data = raw[12..].to_vec();
    let index = u32::from_le_bytes(raw[0..4].try_into().unwrap());
    let usage = u32::from_le_bytes(raw[4..8].try_into().unwrap());
    let checksum = u32::from_le_bytes(raw[8..12].try_into().unwrap());
    let block = DataBlock { index, usage, checksum, data: data.clone() };
    assert!(block.validate().is_ok());
    data[0] ^= 1;
    let corrupt = DataBlock { index, usage, checksum, data };
    assert_eq!(corrupt.validate(), Err(Error::InvalidChecksum));
}
