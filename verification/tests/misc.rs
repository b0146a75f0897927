use exfat::endian::{u16le, u32le, u64le, LittleEndian, SpecificEndian};
use exfat::error::Error;
use exfat::hint::ClusterHint;
use exfat::math::{
    round_down_to_prev_multiple, round_up_to_next_multiple, truncate_atime, TimeSpec64,
};
use exfat::superblock::ExfatErrorMode;
use exfat::util::count_oks;

#[test]
fn rounding_to_a_power_of_two() {
    assert_eq!(round_up_to_next_multiple(0, 512), 0);
    assert_eq!(round_up_to_next_multiple(1, 512), 512);
    assert_eq!(round_up_to_next_multiple(512, 512), 512);
    assert_eq!(round_up_to_next_multiple(513, 512), 1024);
    assert_eq!(round_up_to_next_multiple(4097, 4096), 8192);
    assert_eq!(round_up_to_next_multiple(77, 1), 77);
    assert_eq!(round_down_to_prev_multiple(0, 512), 0);
    assert_eq!(round_down_to_prev_multiple(511, 512), 0);
    assert_eq!(round_down_to_prev_multiple(512, 512), 512);
    assert_eq!(round_down_to_prev_multiple(1023, 512), 512);
    assert_eq!(round_down_to_prev_multiple(u64::MAX, 2), u64::MAX - 1);
}

#[test]
fn access_times_have_two_seconds() {
    let mut ts = TimeSpec64 { tv_sec: 1001, tv_nsec: 999 };
    truncate_atime(&mut ts);
    assert_eq!(ts, TimeSpec64 { tv_sec: 1000, tv_nsec: 0 });
    let mut ts = TimeSpec64 { tv_sec: 1000, tv_nsec: 1 };
    truncate_atime(&mut ts);
    assert_eq!(ts, TimeSpec64 { tv_sec: 1000, tv_nsec: 0 });
    let mut ts = TimeSpec64 { tv_sec: -3, tv_nsec: 0 };
    truncate_atime(&mut ts);
    assert_eq!(ts.tv_sec, -4);
}

#[test]
fn a_hint_has_a_cluster() {
    assert!(ClusterHint::new(0, 3).is_none());
    let hint = ClusterHint::new(7, 3).unwrap();
    assert_eq!((hint.index, hint.offset), (7, 3));
}

#[test]
fn error_modes_have_numbers_and_names() {
    assert_eq!(ExfatErrorMode::from_c_int(0), Ok(ExfatErrorMode::Continue));
    assert_eq!(ExfatErrorMode::from_c_int(1), Ok(ExfatErrorMode::Panic));
    assert_eq!(ExfatErrorMode::from_c_int(2), Ok(ExfatErrorMode::RemountRo));
    assert_eq!(ExfatErrorMode::from_c_int(3), Err(Error::InvalidFormat));
    assert_eq!(ExfatErrorMode::Continue.get_name(), "continue");
    assert_eq!(ExfatErrorMode::Panic.get_name(), "panic");
    assert_eq!(ExfatErrorMode::RemountRo.get_name(), "remount-ro");
    assert_eq!(ExfatErrorMode::default(), ExfatErrorMode::Continue);
}

#[test]
fn counting_results() {
    assert_eq!(count_oks(Ok(4), Ok::<u8, Error>(9)), Ok(5));
    assert_eq!(count_oks(Ok(4), Err::<u8, Error>(Error::IoError)), Err(Error::IoError));
    assert_eq!(count_oks(Err(Error::Corruption), Ok::<u8, Error>(9)), Err(Error::Corruption));
    assert_eq!(
        count_oks(Err(Error::Corruption), Err::<u8, Error>(Error::IoError)),
        Err(Error::IoError)
    );
}

#[test]
fn little_endian_values_round_trip() {
    let v: u16le = LittleEndian::from(0x1234u16);
    assert_eq!(v.to_native(), 0x1234);
    assert_eq!(v.to_bits().to_ne_bytes(), [0x34, 0x12]);
    let v: u32le = LittleEndian::from(0x1234_5678u32);
    assert_eq!(v.to_native(), 0x1234_5678);
    assert_eq!(v.to_bits().to_ne_bytes(), [0x78, 0x56, 0x34, 0x12]);
    let v: u64le = LittleEndian::from(0x0102_0304_0506_0708u64);
    assert_eq!(v.to_native(), 0x0102_0304_0506_0708);
    assert_eq!(v.to_bits().to_ne_bytes(), [8, 7, 6, 5, 4, 3, 2, 1]);
    assert_eq!(u16::from(LittleEndian::from(0xBEEFu16)), 0xBEEF);
    assert_eq!(u32::from(LittleEndian::from(0xDEAD_BEEFu32)), 0xDEAD_BEEF);
    assert_eq!(u64::from(LittleEndian::from(77u64)), 77);
}

#[test]
fn raw_bits_are_kept() {
    let raw = u32::from_ne_bytes([1, 2, 3, 4]);
    let v = LittleEndian::<u32>::from_bits(raw);
    assert_eq!(v.to_bits(), raw);
    assert_eq!(v.to_native(), 0x0403_0201);
    let raw = u16::from_ne_bytes([1, 2]);
    assert_eq!(LittleEndian::<u16>::from_bits(raw).to_native(), 0x0201);
    let raw = u64::from_ne_bytes([1, 2, 3, 4, 5, 6, 7, 8]);
    assert_eq!(LittleEndian::<u64>::from_bits(raw).to_native(), 0x0807_0605_0403_0201);
}

#[test]
fn big_endian_forms_reverse_the_bytes_of_little_endian_forms() {
    assert_eq!(0x1234u16.to_big_endian().to_ne_bytes(), [0x12, 0x34]);
    assert_eq!(0x1234u16.to_little_endian().to_ne_bytes(), [0x34, 0x12]);
    assert_eq!(u16::from_ne_bytes([0x12, 0x34]).from_big_endian(), 0x1234);
    assert_eq!(u16::from_ne_bytes([0x34, 0x12]).from_little_endian(), 0x1234);
    assert_eq!(0x1234_5678u32.to_big_endian().to_ne_bytes(), [0x12, 0x34, 0x56, 0x78]);
    assert_eq!(0x1234_5678u32.to_little_endian().to_ne_bytes(), [0x78, 0x56, 0x34, 0x12]);
    assert_eq!(u32::from_ne_bytes([0x12, 0x34, 0x56, 0x78]).from_big_endian(), 0x1234_5678);
    assert_eq!(u32::from_ne_bytes([0x78, 0x56, 0x34, 0x12]).from_little_endian(), 0x1234_5678);
    assert_eq!(0x0102_0304_0506_0708u64.to_big_endian().to_ne_bytes(), [1, 2, 3, 4, 5, 6, 7, 8]);
    assert_eq!(
        0x0102_0304_0506_0708u64.to_little_endian().to_ne_bytes(),
        [8, 7, 6, 5, 4, 3, 2, 1]
    );
    assert_eq!(
        u64::from_ne_bytes([1, 2, 3, 4, 5, 6, 7, 8]).from_big_endian(),
        0x0102_0304_0506_0708
    );
    assert_eq!(
        u64::from_ne_bytes([8, 7, 6, 5, 4, 3, 2, 1]).from_little_endian(),
        0x0102_0304_0506_0708
    );
}
