//! The handle table of the resident process.

use redk::kfs::reader::DataBlockReader;
use redk::kfs::{DataBlock, BLK_DATA_SIZE};
use redk::process::{Process, MAX_FD};

fn handle_over(content: &[u8]) -> DataBlockReader {
    let mut data = content.to_vec();
    let usage = data.len() as u32;
    data.resize(BLK_DATA_SIZE, 0);
    DataBlockReader::new(vec![DataBlock { index: 0, usage, checksum: 0, data }])
}

#[test]
fn a_new_process_has_no_open_handle() {
    let p = Process::new();
    assert_eq!(p.files.len(), MAX_FD);
    assert!(p.files.iter().all(|slot| slot.is_none()));
    assert_eq!(p.memory, vec![0]);
    assert_eq!(p.brk, 0);
    let d = Process::default();
    assert!(d.files.iter().all(|slot| slot.is_none()));
}

#[test]
fn store_file_uses_the_lowest_free_slot() {
    let mut p = Process::new();
    assert_eq!(p.store_file(handle_over(b"a")), Ok(0));
    assert_eq!(p.store_file(handle_over(b"b")), Ok(1));
    assert_eq!(p.close_file(0), Ok(()));
    assert_eq!(p.store_file(handle_over(b"c")), Ok(0));
    assert_eq!(p.store_file(handle_over(b"d")), Ok(2));
}

#[test]
fn store_file_reports_a_full_table() {
    let mut p = Process::new();
    for i in 0..MAX_FD {
        assert_eq!(p.store_file(handle_over(b"x")), Ok(i as u32));
    }
    assert_eq!(p.store_file(handle_over(b"y")), Err(()));
    assert!(p.files.iter().all(|slot| slot.is_some()));
}

#[test]
fn get_file_is_bounds_checked() {
    let mut p = Process::new();
    assert!(p.get_file(0).is_none());
    assert!(p.get_file(31).is_none());
    assert!(p.get_file(32).is_none());
    assert!(p.get_file(u32::MAX).is_none());
    p.store_file(handle_over(b"content")).unwrap();
    assert!(p.get_file(0).is_some());
}

#[test]
fn close_file_empties_exactly_one_slot() {
    let mut p = Process::new();
    p.store_file(handle_over(b"a")).unwrap();
    p.store_file(handle_over(b"b")).unwrap();
    assert_eq!(p.close_file(0), Ok(()));
    assert_eq!(p.close_file(0), Err(())); // already empty
    assert_eq!(p.close_file(40), Err(())); // outside the table
    assert!(p.get_file(1).is_some());
}
