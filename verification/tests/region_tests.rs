use posixaccessor::errors::ShmError;
use posixaccessor::facility::{Facility, FACILITY_FULL};
use posixaccessor::region::POSIXShm;
use posixaccessor::value::ShmValue;
use std::mem;

#[test]
fn test_shared_memory_write_read() {
    let shm_name = "test_shared_memory_file";
    let mut facility = Facility::new(8, 64);
    let mut posix_shm = POSIXShm::<u64>::new(shm_name.to_string(), mem::size_of::<u64>());
    let ret = posix_shm.open(&mut facility);
    assert!(ret.is_ok());

    let mut val: u64 = 0xAA;
    let ret = posix_shm.write(&mut facility, val);
    assert!(ret.is_ok());

    let ret: u64 = posix_shm.read(&facility).unwrap();
    assert_eq!(val, ret);

    let ret = posix_shm.memset(&mut facility, 0, mem::size_of::<u64>());
    assert!(ret.is_ok());
    let ret: u64 = posix_shm.read(&facility).unwrap();
    assert_eq!(ret, 0);

    let d = posix_shm.raw_descriptor().unwrap();
    val = 0xFF;
    facility.write_bytes(d, 0, &val.to_bytes());
    let ret: u64 = posix_shm.read(&facility).unwrap();
    assert_eq!(ret, val);

    val = 42;
    facility.store(d, val);
    let ret: u64 = posix_shm.read(&facility).unwrap();
    assert_eq!(ret, val);
}

#[test]
fn test_counter_scenario() {
    let mut facility = Facility::new(4, 16);
    let mut region = POSIXShm::<u64>::new("counter".to_string(), 8);
    assert!(region.open(&mut facility).is_ok());

    assert!(region.write(&mut facility, 0xAA).is_ok());
    assert_eq!(region.read(&facility).unwrap(), 0xAA);

    assert!(region.memset(&mut facility, 0, 8).is_ok());
    assert_eq!(region.read(&facility).unwrap(), 0);

    let d = region.raw_descriptor().unwrap();
    facility.write_bytes(d, 0, &0xFFu64.to_bytes());
    assert_eq!(region.read(&facility).unwrap(), 0xFF);

    facility.store(d, 42u64);
    assert_eq!(region.read(&facility).unwrap(), 42);
}

#[test]
fn test_not_mapped_before_open() {
    let mut facility = Facility::new(4, 16);
    let region = POSIXShm::<u64>::new("untouched".to_string(), 8);

    assert_eq!(region.read(&facility), Err(ShmError::NotMapped));
    assert_eq!(region.write(&mut facility, 7), Err(ShmError::NotMapped));
    assert_eq!(region.memset(&mut facility, 0, 8), Err(ShmError::NotMapped));
    assert_eq!(region.raw_descriptor(), None);
}

#[test]
fn test_cross_handle_visibility() {
    let mut facility = Facility::new(4, 16);
    let mut first = POSIXShm::<u32>::new("shared".to_string(), 4);
    let mut second = POSIXShm::<u32>::new("shared".to_string(), 4);
    assert!(first.open(&mut facility).is_ok());
    assert!(second.open(&mut facility).is_ok());

    assert!(first.write(&mut facility, 7).is_ok());
    assert_eq!(second.read(&facility).unwrap(), 7);

    assert!(second.write(&mut facility, 9).is_ok());
    assert_eq!(first.read(&facility).unwrap(), 9);
}

#[test]
fn test_reopen_keeps_contents() {
    let mut facility = Facility::new(4, 16);
    let mut writer = POSIXShm::<u64>::new("persistent".to_string(), 8);
    assert!(writer.open(&mut facility).is_ok());
    assert!(writer.write(&mut facility, 0xAA).is_ok());

    let mut reader = POSIXShm::<u64>::new("persistent".to_string(), 8);
    assert!(reader.open(&mut facility).is_ok());
    assert_eq!(reader.read(&facility).unwrap(), 0xAA);
}

#[test]
fn test_creation_failure_when_table_full() {
    let mut facility = Facility::new(0, 16);
    let mut region = POSIXShm::<u64>::new("wont_fit".to_string(), 8);
    assert_eq!(
        region.open(&mut facility),
        Err(ShmError::CreationFailure(FACILITY_FULL))
    );
    assert_eq!(region.read(&facility), Err(ShmError::NotMapped));
}

#[test]
fn test_resize_failure_when_too_large() {
    let mut facility = Facility::new(4, 4);
    let mut region = POSIXShm::<u64>::new("too_large".to_string(), 8);
    assert_eq!(region.open(&mut facility), Err(ShmError::ResizeFailure));
    assert_eq!(region.read(&facility), Err(ShmError::NotMapped));
}

#[test]
fn test_mapping_failure_when_zero_sized() {
    let mut facility = Facility::new(4, 16);
    let mut region = POSIXShm::<u64>::new("zero_sized".to_string(), 0);
    assert_eq!(region.open(&mut facility), Err(ShmError::MappingFailure));
    assert_eq!(region.read(&facility), Err(ShmError::NotMapped));
}

#[test]
fn test_fill_value_repeats_in_payload() {
    let mut facility = Facility::new(4, 16);
    let mut region = POSIXShm::<u64>::new("filled".to_string(), 8);
    assert!(region.open(&mut facility).is_ok());
    assert!(region.memset(&mut facility, 0x5A, 8).is_ok());
    assert_eq!(region.read(&facility).unwrap(), 0x5A5A_5A5A_5A5A_5A5Au64);
}

#[test]
fn test_partial_fill_zeroes_low_bytes() {
    let mut facility = Facility::new(4, 16);
    let mut region = POSIXShm::<u64>::new("partial".to_string(), 8);
    assert!(region.open(&mut facility).is_ok());
    assert!(region.write(&mut facility, u64::MAX).is_ok());
    assert!(region.memset(&mut facility, 0, 4).is_ok());
    assert_eq!(region.read(&facility).unwrap(), 0xFFFF_FFFF_0000_0000u64);
}

#[test]
fn test_raw_read_sees_typed_write() {
    let mut facility = Facility::new(4, 16);
    let mut region = POSIXShm::<u32>::new("raw_read".to_string(), 4);
    assert!(region.open(&mut facility).is_ok());
    assert!(region.write(&mut facility, 0x0102_0304).is_ok());
    let d = region.raw_descriptor().unwrap();
    assert_eq!(facility.read_bytes(d, 0, 4), vec![0x04, 0x03, 0x02, 0x01]);
}
