use exfat::error::Error;
use exfat::fs_parameter::{
    complete_options, parse_param, read_mount_options, ExfatOptions, ParseResult,
};
use exfat::superblock::ExfatErrorMode;

fn value(uint_32: u32, int_32: i32, string: &[u8]) -> ParseResult {
    ParseResult { uint_32, int_32, string: string.to_vec() }
}

#[test]
fn options_have_numbers() {
    assert_eq!(ExfatOptions::from_c_int(0), Ok(ExfatOptions::Uid));
    assert_eq!(ExfatOptions::from_c_int(1), Ok(ExfatOptions::Gid));
    assert_eq!(ExfatOptions::from_c_int(2), Ok(ExfatOptions::Umask));
    assert_eq!(ExfatOptions::from_c_int(3), Ok(ExfatOptions::Dmask));
    assert_eq!(ExfatOptions::from_c_int(4), Ok(ExfatOptions::Fmask));
    assert_eq!(ExfatOptions::from_c_int(5), Ok(ExfatOptions::AllowUtime));
    assert_eq!(ExfatOptions::from_c_int(6), Ok(ExfatOptions::Charset));
    assert_eq!(ExfatOptions::from_c_int(7), Ok(ExfatOptions::Errors));
    assert_eq!(ExfatOptions::from_c_int(8), Ok(ExfatOptions::Discard));
    assert_eq!(ExfatOptions::from_c_int(9), Ok(ExfatOptions::TimeOffset));
    assert_eq!(ExfatOptions::from_c_int(10), Ok(ExfatOptions::Utf8));
    assert_eq!(ExfatOptions::from_c_int(11), Ok(ExfatOptions::Debug));
    assert_eq!(ExfatOptions::from_c_int(12), Ok(ExfatOptions::Namecase));
    assert_eq!(ExfatOptions::from_c_int(13), Ok(ExfatOptions::Codepage));
    assert_eq!(ExfatOptions::from_c_int(14), Err(Error::InvalidFormat));
    assert_eq!(ExfatOptions::from_c_int(-1), Err(Error::InvalidFormat));
}

#[test]
fn the_defaults_of_the_options() {
    let o = read_mount_options();
    assert_eq!((o.fs_uid, o.fs_gid, o.fs_fmask, o.fs_dmask), (0, 0, 0, 0));
    assert_eq!(o.allow_utime, 0xFFFF);
    assert_eq!(o.iocharset, b"utf8");
    assert_eq!(o.errors, ExfatErrorMode::RemountRo);
    assert!(o.utf8);
    assert!(!o.discard);
    assert_eq!(o.time_offset, 0);
}

#[test]
fn options_take_their_values() {
    let mut o = read_mount_options();
    assert_eq!(parse_param(&mut o, 0, value(1000, 0, b"")), Ok(0));
    assert_eq!(parse_param(&mut o, 1, value(100, 0, b"")), Ok(0));
    assert_eq!((o.fs_uid, o.fs_gid), (1000, 100));
    assert_eq!(parse_param(&mut o, 2, value(0o1_000_022, 0, b"")), Ok(0));
    assert_eq!((o.fs_fmask, o.fs_dmask), (0o022, 0o022));
    assert_eq!(parse_param(&mut o, 3, value(0o002, 0, b"")), Ok(0));
    assert_eq!(parse_param(&mut o, 4, value(0o133, 0, b"")), Ok(0));
    assert_eq!((o.fs_fmask, o.fs_dmask), (0o133, 0o002));
    assert_eq!(parse_param(&mut o, 5, value(0o777, 0, b"")), Ok(0));
    assert_eq!(o.allow_utime, 0o022);
    assert_eq!(parse_param(&mut o, 6, value(0, 0, b"iso8859-1")), Ok(0));
    assert_eq!(o.iocharset, b"iso8859-1");
    assert_eq!(parse_param(&mut o, 7, value(1, 0, b"")), Ok(0));
    assert_eq!(o.errors, ExfatErrorMode::Panic);
    assert_eq!(parse_param(&mut o, 9, value(0, -90, b"")), Ok(0));
    assert_eq!(o.time_offset, -90);
    // the other options change nothing
    for opt in [8, 10, 11, 12, 13] {
        assert_eq!(parse_param(&mut o, opt, value(7, 7, b"x")), Ok(0));
    }
    assert_eq!((o.fs_uid, o.fs_gid, o.time_offset), (1000, 100, -90));
    assert!(!o.discard);
}

#[test]
fn values_that_an_option_cannot_have_are_rejected() {
    let mut o = read_mount_options();
    assert_eq!(parse_param(&mut o, 9, value(0, 1441, b"")), Err(Error::InvalidFormat));
    assert_eq!(parse_param(&mut o, 9, value(0, -1441, b"")), Err(Error::InvalidFormat));
    assert_eq!(parse_param(&mut o, 9, value(0, 1440, b"")), Ok(0));
    assert_eq!(o.time_offset, 1440);
    assert_eq!(parse_param(&mut o, 9, value(0, -1440, b"")), Ok(0));
    assert_eq!(parse_param(&mut o, 7, value(3, 0, b"")), Err(Error::InvalidFormat));
    assert_eq!(o.errors, ExfatErrorMode::RemountRo);
    assert_eq!(parse_param(&mut o, 14, value(0, 0, b"")), Err(Error::InvalidFormat));
}

#[test]
fn an_error_of_the_parser_is_handed_back() {
    let mut o = read_mount_options();
    assert_eq!(parse_param(&mut o, -22, value(5, 5, b"x")), Ok(-22));
    assert_eq!(o.fs_uid, 0);
}

#[test]
fn options_are_completed_for_a_mount() {
    let mut o = read_mount_options();
    o.fs_dmask = 0o002;
    o.discard = true;
    o.utf8 = false;
    complete_options(&mut o, false);
    assert_eq!(o.allow_utime, 0o020);
    assert!(!o.discard);
    assert!(o.utf8);
    let mut o = read_mount_options();
    o.allow_utime = 0o002;
    o.discard = true;
    o.utf8 = false;
    o.iocharset = b"ascii".to_vec();
    complete_options(&mut o, true);
    assert_eq!(o.allow_utime, 0o002);
    assert!(o.discard);
    assert!(!o.utf8);
}
