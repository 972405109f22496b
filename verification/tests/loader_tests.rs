//! The ELF decoder and the loader.

use redk::elf::{Elf, ElfClass, ElfEncoding, ElfType, Error};
use redk::kfs::reader::DataBlockReader;
use redk::kfs::{DataBlock, BLK_DATA_SIZE};
use redk::userland::{execute_file, launch_frame, load_into_memory};

fn le32(out: &mut Vec<u8>, x: u32) {
    out.extend_from_slice(&x.to_le_bytes());
}

fn le16(out: &mut Vec<u8>, x: u16) {
    out.extend_from_slice(&x.to_le_bytes());
}

/// A reader over plain bytes.
fn reader_over(content: &[u8]) -> DataBlockReader {
    let mut blocks = Vec::new();
    let mut lo = 0;
    loop {
        let hi = (lo + BLK_DATA_SIZE).min(content.len());
        let mut data = content[lo..hi].to_vec();
        let usage = data.len() as u32;
        data.resize(BLK_DATA_SIZE, 0);
        blocks.push(DataBlock { index: 0, usage, checksum: 0, data });
        lo += BLK_DATA_SIZE;
        if lo >= content.len() {
            break;
        }
    }
    DataBlockReader::new(blocks)
}

/// A 32-bit executable with the given entry point and program headers
/// `(offset, vaddr, filesz, memsz, align)`.
fn make_elf(entry: u32, phdrs: &[(u32, u32, u32, u32, u32)], total_len: usize) -> Vec<u8> {
    let mut file = Vec::new();
    file.extend_from_slice(&[0x7F, 0x45, 0x4C, 0x46, 1, 1, 1]);
    file.resize(16, 0);
    le16(&mut file, 2); // an executable object
    le16(&mut file, 3);
    le32(&mut file, 1);
    le32(&mut file, entry);
    le32(&mut file, 52); // the program headers follow the header
    le32(&mut file, 0);
    le32(&mut file, 0);
    le16(&mut file, 52);
    le16(&mut file, 32);
    le16(&mut file, phdrs.len() as u16);
    le16(&mut file, 0);
    le16(&mut file, 0);
    le16(&mut file, 0);
    assert_eq!(file.len(), 52);
    for &(offset, vaddr, filesz, memsz, align) in phdrs {
        le32(&mut file, 1); // loadable
        le32(&mut file, offset);
        le32(&mut file, vaddr);
        le32(&mut file, 0);
        le32(&mut file, filesz);
        le32(&mut file, memsz);
        le32(&mut file, 5);
        le32(&mut file, align);
    }
    if file.len() < total_len {
        for i in file.len()..total_len {
            file.push((i % 251) as u8);
        }
    }
    file
}

#[test]
fn enum_decoding() {
    assert_eq!(ElfClass::try_from(1), Ok(ElfClass::Class32));
    assert_eq!(ElfClass::try_from(2), Err(Error::UnknownElf));
    assert_eq!(ElfEncoding::try_from(1), Ok(ElfEncoding::Lsb));
    assert_eq!(ElfEncoding::try_from(2), Err(Error::UnknownElf));
    assert_eq!(ElfType::try_from(2), Ok(ElfType::Exec));
    assert_eq!(ElfType::try_from(0), Ok(ElfType::NoType));
    assert_eq!(ElfType::try_from(6), Err(Error::UnknownElf));
}

#[test]
fn new_rejects_a_wrong_magic() {
    let mut file = make_elf(0, &[(0, 0, 4, 4, 4)], 200);
    file[0] = 0;
    assert_eq!(Elf::new(reader_over(&file)).err(), Some(Error::NotAnELF));
}

#[test]
fn new_rejects_a_short_file() {
    assert_eq!(Elf::new(reader_over(b"tiny")).err(), Some(Error::NotAnELF));
}

#[test]
fn new_reports_the_failing_check() {
    // an unserved class is unknown
    let mut file = make_elf(0, &[(0, 0, 4, 4, 4)], 200);
    file[4] = 2;
    assert_eq!(Elf::new(reader_over(&file)).err(), Some(Error::UnknownElf));
    // a program-header table past the end of the file is out of bounds
    let mut file = make_elf(0, &[(0, 0, 4, 4, 4)], 200);
    file[44] = 0xFF; // the program-header count
    assert_eq!(Elf::new(reader_over(&file)).err(), Some(Error::OutOfBounds));
}

#[test]
fn new_accepts_a_sound_object() {
    let file = make_elf(0x1000, &[(0, 0, 4, 4, 4)], 200);
    let elf = Elf::new(reader_over(&file)).expect("the object should decode");
    assert_eq!(elf.entry_point(), 0x1000);
    assert_eq!(elf.header.phnum, 1);
}

#[test]
fn program_headers_decode_the_table() {
    let file = make_elf(0, &[(0, 0, 16, 32, 4096), (16, 4096, 8, 8, 4096)], 256);
    let mut elf = Elf::new(reader_over(&file)).unwrap();
    let phdrs = elf.program_headers();
    assert_eq!(phdrs.len(), 2);
    assert_eq!(phdrs[0].vaddr, 0);
    assert_eq!(phdrs[0].filesz, 16);
    assert_eq!(phdrs[0].memsz, 32);
    assert_eq!(phdrs[1].offset, 16);
    assert_eq!(phdrs[1].vaddr, 4096);
    assert!(phdrs[0].is_load());
}

#[test]
fn loader_copies_segments_and_zero_fills() {
    // two segments: one with a zero-filled tail, one at a distant address
    let file = make_elf(0, &[(0, 0, 16, 32, 4096), (16, 4096, 8, 8, 4096)], 256);
    let mut elf = Elf::new(reader_over(&file)).unwrap();
    let memory = load_into_memory(&mut elf);

    assert_eq!(memory.len(), 4104);
    assert_eq!(&memory[0..16], &file[0..16]);
    assert_eq!(&memory[16..32], &[0u8; 16]);
    assert_eq!(&memory[4096..4104], &file[16..24]);
    // everything between the segments stays zero
    assert!(memory[32..4096].iter().all(|&b| b == 0));
}

#[test]
fn execute_file_builds_the_launch_frame() {
    let file = make_elf(0x40, &[(0, 0, 64, 64, 8)], 256);
    let (image, frame) =
        execute_file(reader_over(&file), 0x0010_0000, 0x0020_0000).expect("should launch");
    assert_eq!(image.entry_point, 0x40);
    assert_eq!(image.align, 8);
    assert_eq!(image.memory.len(), 64);
    assert_eq!(frame.eip, 0x0010_0040);
    assert_eq!(frame.esp, 0x0020_0000);
    assert_eq!(frame.cs, 0x1B);
    assert_eq!(frame.ss, 0x23);
}

#[test]
fn the_iterator_hands_headers_out_in_order() {
    let file = make_elf(0, &[(0, 0, 4, 4, 4), (4, 8, 4, 4, 4)], 200);
    let mut elf = Elf::new(reader_over(&file)).unwrap();
    let mut it = redk::elf::ElfProgramHeaderIterator::new(&mut elf);
    let first = it.next().unwrap();
    assert_eq!(first.vaddr, 0);
    let second = it.next().unwrap();
    assert_eq!(second.vaddr, 8);
    assert_eq!(it.next(), None);
}

#[test]
fn launch_frame_selects_the_ring3_selectors() {
    let frame = launch_frame(0x8048000, 0x9000000);
    assert_eq!(frame.cs, 24 | 3);
    assert_eq!(frame.ss, 32 | 3);
    assert_eq!(frame.eip, 0x8048000);
    assert_eq!(frame.esp, 0x9000000);
}
