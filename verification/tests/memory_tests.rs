use picorv32_rt::memory::{AccessError, Memory};

fn image() -> Memory {
    Memory::new(0x1000, vec![0x4433_2211, 0x8877_6655, 0xdead_beef]).unwrap()
}

#[test]
fn new_image_keeps_origin_and_words() {
    let m = image();
    assert_eq!(m.origin(), 0x1000);
    assert_eq!(m.len(), 3);
    assert_eq!(m.read_word(0x1000), Ok(0x4433_2211));
    assert_eq!(m.read_word(0x1004), Ok(0x8877_6655));
    assert_eq!(m.read_word(0x1008), Ok(0xdead_beef));
}

#[test]
fn new_image_refuses_unaligned_origin() {
    assert!(Memory::new(0x1001, vec![0]).is_none());
    assert!(Memory::new(0x1002, vec![]).is_none());
    assert!(Memory::new(0x1003, vec![0, 0]).is_none());
}

#[test]
fn new_image_refuses_to_pass_the_address_space() {
    assert!(Memory::new(0xffff_fff8, vec![0, 0, 0]).is_none());
    assert!(Memory::new(0xffff_fff8, vec![0, 0]).is_some());
    assert!(Memory::new(0xffff_fffc, vec![7]).is_some());
    assert!(Memory::new(0xffff_fffc, vec![]).is_some());
}

#[test]
fn last_word_of_the_address_space_can_be_read() {
    let m = Memory::new(0xffff_fffc, vec![0x0102_0304]).unwrap();
    assert_eq!(m.read_word(0xffff_fffc), Ok(0x0102_0304));
    assert_eq!(m.read_halfword(0xffff_fffe), Ok(0x0102));
    assert_eq!(m.read_byte(0xffff_ffff), Ok(0x01));
}

#[test]
fn read_word_reports_misaligned_address() {
    let m = image();
    assert_eq!(m.read_word(0x1001), Err(AccessError::Misaligned));
    assert_eq!(m.read_word(0x1002), Err(AccessError::Misaligned));
    assert_eq!(m.read_word(0x0fff), Err(AccessError::Misaligned));
}

#[test]
fn read_word_reports_unmapped_address() {
    let m = image();
    assert_eq!(m.read_word(0x0ffc), Err(AccessError::Unmapped));
    assert_eq!(m.read_word(0x100c), Err(AccessError::Unmapped));
    assert_eq!(m.read_word(0), Err(AccessError::Unmapped));
    assert_eq!(m.read_word(0xffff_fffc), Err(AccessError::Unmapped));
}

#[test]
fn write_word_changes_one_word() {
    let mut m = image();
    assert_eq!(m.write_word(0x1004, 0x1234_5678), Ok(()));
    assert_eq!(m.read_word(0x1000), Ok(0x4433_2211));
    assert_eq!(m.read_word(0x1004), Ok(0x1234_5678));
    assert_eq!(m.read_word(0x1008), Ok(0xdead_beef));
    assert_eq!(m.origin(), 0x1000);
    assert_eq!(m.len(), 3);
}

#[test]
fn refused_write_changes_nothing() {
    let mut m = image();
    assert_eq!(m.write_word(0x1006, 1), Err(AccessError::Misaligned));
    assert_eq!(m.write_word(0x100c, 1), Err(AccessError::Unmapped));
    assert_eq!(m.write_word(0x0ffc, 1), Err(AccessError::Unmapped));
    assert_eq!(m.read_word(0x1000), Ok(0x4433_2211));
    assert_eq!(m.read_word(0x1004), Ok(0x8877_6655));
    assert_eq!(m.read_word(0x1008), Ok(0xdead_beef));
}

#[test]
fn halfwords_are_little_endian() {
    let m = image();
    assert_eq!(m.read_halfword(0x1000), Ok(0x2211));
    assert_eq!(m.read_halfword(0x1002), Ok(0x4433));
    assert_eq!(m.read_halfword(0x1004), Ok(0x6655));
    assert_eq!(m.read_halfword(0x100a), Ok(0xdead));
}

#[test]
fn read_halfword_reports_errors() {
    let m = image();
    assert_eq!(m.read_halfword(0x1001), Err(AccessError::Misaligned));
    assert_eq!(m.read_halfword(0x1003), Err(AccessError::Misaligned));
    assert_eq!(m.read_halfword(0x0ffe), Err(AccessError::Unmapped));
    assert_eq!(m.read_halfword(0x100c), Err(AccessError::Unmapped));
}

#[test]
fn bytes_are_little_endian() {
    let m = image();
    assert_eq!(m.read_byte(0x1000), Ok(0x11));
    assert_eq!(m.read_byte(0x1001), Ok(0x22));
    assert_eq!(m.read_byte(0x1002), Ok(0x33));
    assert_eq!(m.read_byte(0x1003), Ok(0x44));
    assert_eq!(m.read_byte(0x1004), Ok(0x55));
    assert_eq!(m.read_byte(0x100b), Ok(0xde));
}

#[test]
fn read_byte_reports_unmapped_address() {
    let m = image();
    assert_eq!(m.read_byte(0x0fff), Err(AccessError::Unmapped));
    assert_eq!(m.read_byte(0x100c), Err(AccessError::Unmapped));
}

#[test]
fn empty_image_holds_nothing() {
    let m = Memory::new(0x2000, vec![]).unwrap();
    assert_eq!(m.len(), 0);
    assert_eq!(m.read_word(0x2000), Err(AccessError::Unmapped));
    assert_eq!(m.read_halfword(0x2000), Err(AccessError::Unmapped));
    assert_eq!(m.read_byte(0x2000), Err(AccessError::Unmapped));
}
