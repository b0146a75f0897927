use exfat::checksum::{calc_checksum_16, calc_checksum_32, ChecksumType};

#[test]
fn checksum16_of_nothing_is_the_seed() {
    assert_eq!(calc_checksum_16(&[], 0x1234, ChecksumType::Default), 0x1234);
}

#[test]
fn checksum16_rotates_and_adds() {
    // 1 -> rotate right gives 0x8000, plus 2
    assert_eq!(calc_checksum_16(&[1, 2], 0, ChecksumType::Default), 0x8002);
}

#[test]
fn checksum32_rotates_and_adds() {
    assert_eq!(calc_checksum_32(&[1, 2], 0, ChecksumType::Default), 0x8000_0002);
}

#[test]
fn checksum16_is_order_sensitive() {
    let a = calc_checksum_16(&[1, 2], 0, ChecksumType::Default);
    let b = calc_checksum_16(&[2, 1], 0, ChecksumType::Default);
    assert_ne!(a, b);
}

#[test]
fn checksum16_dir_entry_ignores_bytes_2_and_3() {
    let a = calc_checksum_16(&[0x85, 2, 0, 0, 7, 9], 0, ChecksumType::DirEntry);
    let b = calc_checksum_16(&[0x85, 2, 0xAB, 0xCD, 7, 9], 0, ChecksumType::DirEntry);
    assert_eq!(a, b);
    let c = calc_checksum_16(&[0x85, 2, 7, 9], 0, ChecksumType::Default);
    assert_eq!(a, c);
}

#[test]
fn checksum32_boot_sector_ignores_volatile_fields() {
    let mut a = vec![0x5Au8; 512];
    let mut b = a.clone();
    b[106] = 1;
    b[107] = 2;
    b[112] = 3;
    assert_eq!(
        calc_checksum_32(&a, 0, ChecksumType::BootSector),
        calc_checksum_32(&b, 0, ChecksumType::BootSector)
    );
    a[105] = 0;
    assert_ne!(
        calc_checksum_32(&a, 0, ChecksumType::BootSector),
        calc_checksum_32(&b, 0, ChecksumType::BootSector)
    );
}

#[test]
fn checksums_of_a_known_text() {
    assert_eq!(calc_checksum_16(b"EXFAT", 0, ChecksumType::Default), 0x5095);
    assert_eq!(calc_checksum_32(b"EXFAT", 0, ChecksumType::Default), 0x5000_0095);
}

#[test]
fn checksum_continues_from_its_seed() {
    let whole = calc_checksum_32(b"EXFAT   ", 7, ChecksumType::Default);
    let first = calc_checksum_32(b"EXF", 7, ChecksumType::Default);
    assert_eq!(calc_checksum_32(b"AT   ", first, ChecksumType::Default), whole);
}

#[test]
fn checksum_modes_hold_for_both_widths() {
    let a = [9u8, 8, 1, 2, 7];
    let b = [9u8, 8, 3, 4, 7];
    assert_eq!(
        calc_checksum_32(&a, 0, ChecksumType::DirEntry),
        calc_checksum_32(&b, 0, ChecksumType::DirEntry)
    );
    assert_ne!(
        calc_checksum_32(&a, 0, ChecksumType::Default),
        calc_checksum_32(&b, 0, ChecksumType::Default)
    );
    let mut c = vec![1u8; 120];
    let d = c.clone();
    c[112] = 99;
    assert_eq!(
        calc_checksum_16(&c, 0, ChecksumType::BootSector),
        calc_checksum_16(&d, 0, ChecksumType::BootSector)
    );
}

#[test]
fn checksum_of_a_short_buffer_in_dir_entry_mode() {
    // shorter than the excluded field: nothing panics, the present bytes count
    assert_eq!(calc_checksum_16(&[1, 2, 3], 0, ChecksumType::DirEntry), 0x8002);
}
