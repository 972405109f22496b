//! The system-call ABI: dispatch, results, and the sentinel.

use redk::interrupts::InterruptContext;
use redk::kernel::KernelState;
use redk::keyboard::receive_scan;
use redk::kfs::{adler_checksum, BLK_DATA_SIZE, BLK_SIZE, MAGIC};
use redk::syscall::{
    parse_seek_from, syscall_close, syscall_getkey, syscall_gettick, syscall_handler,
    syscall_open, syscall_read, syscall_seek, syscall_write, SENTINEL, SYSCALL_CLOSE,
    SYSCALL_GETKEY, SYSCALL_GETTICK, SYSCALL_OPEN, SYSCALL_PLAYSOUND, SYSCALL_READ, SYSCALL_SEEK,
    SYSCALL_WRITE,
};
use redk::io::SeekFrom;
use redk::timer;

fn le32(out: &mut Vec<u8>, x: u32) {
    out.extend_from_slice(&x.to_le_bytes());
}

/// An image holding one file named `filename` with the given content.
fn make_image(filename: &[u8], content: &[u8]) -> Vec<u8> {
    let n_data = content.len().div_ceil(BLK_DATA_SIZE).max(1);
    let blk_cnt = (2 + n_data) as u32;
    let mut header = Vec::new();
    le32(&mut header, MAGIC);
    let mut name = b"volume".to_vec();
    name.resize(32, 0);
    header.extend_from_slice(&name);
    le32(&mut header, 0);
    le32(&mut header, blk_cnt);
    le32(&mut header, 1);
    le32(&mut header, 1);
    let checksum = adler_checksum(&header);
    let mut image = header;
    le32(&mut image, checksum);
    image.resize(BLK_SIZE, 0);

    // the inode block
    let mut body = Vec::new();
    le32(&mut body, 1);
    let mut fname = filename.to_vec();
    fname.resize(32, 0);
    body.extend_from_slice(&fname);
    le32(&mut body, content.len() as u32);
    le32(&mut body, 1);
    le32(&mut body, n_data as u32);
    le32(&mut body, 0);
    le32(&mut body, n_data as u32);
    le32(&mut body, 0);
    for k in 0..10 {
        le32(&mut body, if k < n_data { (2 + k) as u32 } else { 0 });
    }
    for _ in 0..16 {
        le32(&mut body, 0);
    }
    let inode_checksum = adler_checksum(&body);
    let mut inode_block = body;
    le32(&mut inode_block, inode_checksum);
    inode_block.resize(BLK_SIZE, 0);
    image.extend_from_slice(&inode_block);

    // the data blocks
    for k in 0..n_data {
        let lo = k * BLK_DATA_SIZE;
        let hi = ((k + 1) * BLK_DATA_SIZE).min(content.len());
        let piece = if lo < content.len() { &content[lo..hi] } else { &[][..] };
        let mut data = piece.to_vec();
        data.resize(BLK_DATA_SIZE, 0);
        let mut check = Vec::new();
        le32(&mut check, (2 + k) as u32);
        le32(&mut check, piece.len() as u32);
        le32(&mut check, 0);
        check.extend_from_slice(&data);
        let block_checksum = adler_checksum(&check);
        let mut block = Vec::new();
        le32(&mut block, (2 + k) as u32);
        le32(&mut block, piece.len() as u32);
        le32(&mut block, block_checksum);
        block.extend_from_slice(&data);
        image.extend_from_slice(&block);
    }
    image
}

/// A booted kernel state holding one file.
fn state_with_file(filename: &[u8], content: &[u8]) -> KernelState {
    let mut st = KernelState::new();
    st.fs.init(make_image(filename, content)).expect("the image should be sound");
    st
}

fn context_for(eax: u32, ebx: u32, ecx: u32, edx: u32) -> InterruptContext {
    InterruptContext {
        edi: 1,
        esi: 2,
        ebp: 3,
        esp: 4,
        ebx,
        edx,
        ecx,
        eax,
        interrupt_number: 128,
        error_code: 0,
    }
}

#[test]
fn unknown_opcode_yields_the_sentinel_and_changes_nothing() {
    let mut st = state_with_file(b"f", b"data");
    let mut mem = vec![7u8; 64];
    for op in [0u32, 2, 9, 10, 12, 99, u32::MAX] {
        let mut ctx = context_for(op, 11, 22, 33);
        let ticks_before = st.ticks;
        let serial_before = st.serial_out.clone();
        syscall_handler(&mut ctx, &mut st, &mut mem);
        assert_eq!(ctx.eax, SENTINEL);
        assert_eq!(ctx.ebx, 11);
        assert_eq!(st.ticks, ticks_before);
        assert_eq!(st.serial_out, serial_before);
        assert_eq!(mem, vec![7u8; 64]);
        assert_eq!(syscall_getkey(&mut st), SENTINEL); // buffer still empty
    }
}

#[test]
fn write_copies_to_both_sinks() {
    let mut st = KernelState::new();
    let mut mem = b"..hello!..".to_vec();
    let mut ctx = context_for(SYSCALL_WRITE, 2, 6, 0);
    syscall_handler(&mut ctx, &mut st, &mut mem);
    assert_eq!(ctx.eax, 6);
    assert_eq!(st.serial_out, b"hello!".to_vec());
    assert_eq!(st.vga_out, b"hello!".to_vec());
    let n = syscall_write(&mut st, &b" more".to_vec());
    assert_eq!(n, 5);
    assert_eq!(st.serial_out, b"hello! more".to_vec());
}

#[test]
fn getkey_pops_the_oldest_scan_code() {
    let mut st = KernelState::new();
    assert_eq!(syscall_getkey(&mut st), SENTINEL);
    receive_scan(&mut st.scans, 0x1E);
    receive_scan(&mut st.scans, 0x30);
    assert_eq!(syscall_getkey(&mut st), 0x1E);
    assert_eq!(syscall_getkey(&mut st), 0x30);
    assert_eq!(syscall_getkey(&mut st), SENTINEL);
}

#[test]
fn gettick_counts_ten_milliseconds_per_tick() {
    let mut st = KernelState::new();
    assert_eq!(syscall_gettick(&st), 0);
    let before = syscall_gettick(&st);
    let n = 7;
    for _ in 0..n {
        timer::tick(&mut st.ticks, &mut st.speaker);
    }
    let after = syscall_gettick(&st);
    assert_eq!(after - before, 10 * n);
}

#[test]
fn playsound_starts_the_melody() {
    let mut st = KernelState::new();
    let mut mem = Vec::new();
    le32(&mut mem, 440);
    le32(&mut mem, 500);
    le32(&mut mem, 880);
    le32(&mut mem, 250);
    le32(&mut mem, 0); // the end marker
    le32(&mut mem, 0);
    let mut ctx = context_for(SYSCALL_PLAYSOUND, 0, 0, 0);
    syscall_handler(&mut ctx, &mut st, &mut mem);
    assert_eq!(ctx.eax, 0);
    assert!(st.speaker.enabled);
    assert_eq!(st.speaker.frequency, Some(440));
    assert_eq!(st.speaker.tone_end_date, 500);
}

#[test]
fn open_read_close_round_trip() {
    let content = b"the quick brown fox";
    let mut st = state_with_file(b"quick.txt", content);
    let mut mem = vec![0u8; 256];
    mem[..10].copy_from_slice(b"quick.txt\0");

    let mut open = context_for(SYSCALL_OPEN, 0, 0, 0);
    syscall_handler(&mut open, &mut st, &mut mem);
    let fd = open.eax;
    assert_eq!(fd, 0); // the lowest free descriptor

    // READ(fd, buf at 64, 19 bytes)
    let mut read = context_for(SYSCALL_READ, fd, 64, content.len() as u32);
    syscall_handler(&mut read, &mut st, &mut mem);
    assert_eq!(read.eax, content.len() as u32);
    assert_eq!(&mem[64..64 + content.len()], content);

    // at the end of the file a read yields zero bytes
    let mut read_eof = context_for(SYSCALL_READ, fd, 64, 8);
    syscall_handler(&mut read_eof, &mut st, &mut mem);
    assert_eq!(read_eof.eax, 0);

    let mut close = context_for(SYSCALL_CLOSE, fd, 0, 0);
    syscall_handler(&mut close, &mut st, &mut mem);
    assert_eq!(close.eax, 0);

    // no live handle remains: the read yields the sentinel
    let mut read_closed = context_for(SYSCALL_READ, fd, 64, 8);
    syscall_handler(&mut read_closed, &mut st, &mut mem);
    assert_eq!(read_closed.eax, SENTINEL);
}

#[test]
fn open_unknown_name_yields_the_sentinel() {
    let mut st = state_with_file(b"present", b"x");
    let r = syscall_open(&mut st, &b"absent".to_vec(), 0);
    assert_eq!(r, SENTINEL);
    assert!(st.process.files.iter().all(|slot| slot.is_none()));
}

#[test]
fn sequential_opens_hand_out_increasing_descriptors() {
    let mut st = state_with_file(b"f", b"content");
    let name = b"f".to_vec();
    let mut fds = Vec::new();
    for _ in 0..32 {
        let fd = syscall_open(&mut st, &name, 0);
        assert_ne!(fd, SENTINEL);
        fds.push(fd);
    }
    for k in 1..fds.len() {
        assert!(fds[k - 1] < fds[k]);
    }
    assert_eq!(fds, (0..32).collect::<Vec<u32>>());

    // the full table: one more OPEN yields the sentinel, unmodified slots
    let overflow = syscall_open(&mut st, &name, 0);
    assert_eq!(overflow, SENTINEL);
    assert!(st.process.files.iter().all(|slot| slot.is_some()));

    // closing frees the lowest slot for the next open
    assert_eq!(syscall_close(&mut st, 5), 0);
    assert_eq!(syscall_open(&mut st, &name, 0), 5);
}

#[test]
fn close_of_a_dead_descriptor_yields_the_sentinel() {
    let mut st = KernelState::new();
    assert_eq!(syscall_close(&mut st, 0), SENTINEL);
    assert_eq!(syscall_close(&mut st, 31), SENTINEL);
    assert_eq!(syscall_close(&mut st, 32), SENTINEL);
    assert_eq!(syscall_close(&mut st, u32::MAX), SENTINEL);
}

#[test]
fn parse_seek_from_decodes_the_whence_argument() {
    assert_eq!(parse_seek_from(5, 0), Ok(SeekFrom::Start(5)));
    assert_eq!(parse_seek_from(-3, 1), Ok(SeekFrom::Current(-3)));
    assert_eq!(parse_seek_from(-1, 2), Ok(SeekFrom::End(-1)));
    assert_eq!(parse_seek_from(0, 3), Err(()));
    assert_eq!(parse_seek_from(0, u32::MAX), Err(()));
}

#[test]
fn seek_repositions_the_cursor() {
    let content = b"0123456789";
    let mut st = state_with_file(b"digits", content);
    let fd = syscall_open(&mut st, &b"digits".to_vec(), 0);
    assert_eq!(fd, 0);

    // SEEK(fd, 4, START) then READ yields the bytes from offset 4
    assert_eq!(syscall_seek(&mut st, fd, 4, 0), 4);
    let (n, data) = syscall_read(&mut st, fd, 3);
    assert_eq!(n, 3);
    assert_eq!(data, b"456".to_vec());

    // whence END counts back from the end of the file
    assert_eq!(syscall_seek(&mut st, fd, -2, 2), 8);
    let (n, data) = syscall_read(&mut st, fd, 10);
    assert_eq!(n, 2);
    assert_eq!(data, b"89".to_vec());

    // a bad whence and a dead descriptor yield the sentinel
    assert_eq!(syscall_seek(&mut st, fd, 0, 3), SENTINEL);
    assert_eq!(syscall_seek(&mut st, 9, 0, 0), SENTINEL);
}

#[test]
fn seek_start_equals_read_and_discard() {
    let content = b"abcdefghijklmnopqrstuvwxyz";
    let mut st = state_with_file(b"alpha", content);
    let fd = syscall_open(&mut st, &b"alpha".to_vec(), 0);

    let k = 7;
    let len = 5;
    assert_eq!(syscall_seek(&mut st, fd, k, 0), k as u32);
    let (_, via_seek) = syscall_read(&mut st, fd, len);

    let mut st2 = state_with_file(b"alpha", content);
    let fd2 = syscall_open(&mut st2, &b"alpha".to_vec(), 0);
    let (_, discarded) = syscall_read(&mut st2, fd2, k as usize);
    assert_eq!(discarded.len(), k as usize);
    let (_, via_read) = syscall_read(&mut st2, fd2, len);

    assert_eq!(via_seek, via_read);
}
