use posixaccessor::facility::Facility;
use posixaccessor::region::POSIXShm;
use posixaccessor::value::ShmValue;

#[test]
fn test_byte_widths() {
    assert_eq!(u8::byte_width(), 1);
    assert_eq!(u16::byte_width(), 2);
    assert_eq!(u32::byte_width(), 4);
    assert_eq!(u64::byte_width(), 8);
}

#[test]
fn test_little_endian_images() {
    assert_eq!(0xAAu8.to_bytes(), vec![0xAA]);
    assert_eq!(0x1234u16.to_bytes(), vec![0x34, 0x12]);
    assert_eq!(0xDEAD_BEEFu32.to_bytes(), vec![0xEF, 0xBE, 0xAD, 0xDE]);
    assert_eq!(
        0x0102_0304_0506_0708u64.to_bytes(),
        vec![0x08, 0x07, 0x06, 0x05, 0x04, 0x03, 0x02, 0x01]
    );
}

#[test]
fn test_decode_encoded_values() {
    assert_eq!(u8::from_bytes(&0x7Fu8.to_bytes()), 0x7F);
    assert_eq!(u16::from_bytes(&0xBEEFu16.to_bytes()), 0xBEEF);
    assert_eq!(u32::from_bytes(&0xCAFE_F00Du32.to_bytes()), 0xCAFE_F00D);
    assert_eq!(u64::from_bytes(&u64::MAX.to_bytes()), u64::MAX);
}

#[test]
fn test_round_trip_u8_region() {
    let mut facility = Facility::new(4, 16);
    let mut region = POSIXShm::<u8>::new("one_byte".to_string(), 1);
    assert!(region.open(&mut facility).is_ok());
    assert!(region.write(&mut facility, 0xC3).is_ok());
    assert_eq!(region.read(&facility).unwrap(), 0xC3);
    assert!(region.memset(&mut facility, 0, 1).is_ok());
    assert_eq!(region.read(&facility).unwrap(), 0);
}

#[test]
fn test_round_trip_u16_region() {
    let mut facility = Facility::new(4, 16);
    let mut region = POSIXShm::<u16>::new("two_bytes".to_string(), 2);
    assert!(region.open(&mut facility).is_ok());
    assert!(region.write(&mut facility, 0xBEEF).is_ok());
    assert_eq!(region.read(&facility).unwrap(), 0xBEEF);
    assert!(region.memset(&mut facility, 0, 2).is_ok());
    assert_eq!(region.read(&facility).unwrap(), 0);
}

#[test]
fn test_round_trip_u32_region_with_slack() {
    let mut facility = Facility::new(4, 16);
    let mut region = POSIXShm::<u32>::new("four_bytes".to_string(), 16);
    assert!(region.open(&mut facility).is_ok());
    assert!(region.write(&mut facility, 0xCAFE_F00D).is_ok());
    assert_eq!(region.read(&facility).unwrap(), 0xCAFE_F00D);
    assert!(region.memset(&mut facility, 0, 4).is_ok());
    assert_eq!(region.read(&facility).unwrap(), 0);
}
