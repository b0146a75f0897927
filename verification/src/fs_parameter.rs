//! The mount options: their numbers and the rules for their values.

use vstd::prelude::*;
use crate::error::{Error, Result};
use crate::superblock::{ExfatErrorMode, ExfatMountOptions};

verus! {

/// The bits of `allow_utime` that can be set: group and others.
pub const UTIME_MASK: u16 = 0o022;

/// The value of `allow_utime` while no option has set it.
pub const ALLOW_UTIME_UNSET: u16 = 0xFFFF;

/// The largest offset of local time from UTC, in minutes: a day.
pub const MAX_TIME_OFFSET: i32 = 24 * 60;

/// A mount option.
#[derive(Clone, Copy, Debug, PartialEq, Eq, Structural)]
pub enum ExfatOptions {
    Uid,
    Gid,
    Umask,
    Dmask,
    Fmask,
    AllowUtime,
    Charset,
    Errors,
    Discard,
    TimeOffset,
    Utf8,
    Debug,
    Namecase,
    Codepage,
}

/// The value of a mount option, as the host has parsed it.
pub struct ParseResult {
    pub uint_32: u32,
    pub int_32: i32,
    pub string: Vec<u8>,
}

impl ExfatOptions {
    /// The option with the given number, where there is one.
    pub open spec fn spec_from_c_int(num: i32) -> Option<ExfatOptions> {
        if num == 0 {
            Some(ExfatOptions::Uid)
        } else if num == 1 {
            Some(ExfatOptions::Gid)
        } else if num == 2 {
            Some(ExfatOptions::Umask)
        } else if num == 3 {
            Some(ExfatOptions::Dmask)
        } else if num == 4 {
            Some(ExfatOptions::Fmask)
        } else if num == 5 {
            Some(ExfatOptions::AllowUtime)
        } else if num == 6 {
            Some(ExfatOptions::Charset)
        } else if num == 7 {
            Some(ExfatOptions::Errors)
        } else if num == 8 {
            Some(ExfatOptions::Discard)
        } else if num == 9 {
            Some(ExfatOptions::TimeOffset)
        } else if num == 10 {
            Some(ExfatOptions::Utf8)
        } else if num == 11 {
            Some(ExfatOptions::Debug)
        } else if num == 12 {
            Some(ExfatOptions::Namecase)
        } else if num == 13 {
            Some(ExfatOptions::Codepage)
        } else {
            None
        }
    }

    /// The option with the given number; a number of no option is
    /// `InvalidFormat`.
    pub fn from_c_int(num: i32) -> (r: Result<Self>)
        ensures
            match Self::spec_from_c_int(num) {
                Some(option) => r == Ok::<ExfatOptions, Error>(option),
                None => r == Err::<ExfatOptions, Error>(Error::InvalidFormat),
            },
    {
        Ok(
            match num {
                0 => ExfatOptions::Uid,
                1 => ExfatOptions::Gid,
                2 => ExfatOptions::Umask,
                3 => ExfatOptions::Dmask,
                4 => ExfatOptions::Fmask,
                5 => ExfatOptions::AllowUtime,
                6 => ExfatOptions::Charset,
                7 => ExfatOptions::Errors,
                8 => ExfatOptions::Discard,
                9 => ExfatOptions::TimeOffset,
                10 => ExfatOptions::Utf8,
                11 => ExfatOptions::Debug,
                12 => ExfatOptions::Namecase,
                13 => ExfatOptions::Codepage,
                _ => {
                    return Err(Error::InvalidFormat);
                },
            },
        )
    }
}

/// The low 16 bits of a value.
pub open spec fn low_half(value: u32) -> u16 {
    (value % 0x1_0000) as u16
}

fn low(value: u32) -> (r: u16)
    ensures
        r == low_half(value),
{
    (value % 0x1_0000) as u16
}

/// True when the value of an option is one that the option can have.
pub open spec fn value_accepted(option: ExfatOptions, value: ParseResult) -> bool {
    match option {
        ExfatOptions::Errors => value.uint_32 <= 2,
        ExfatOptions::TimeOffset => -MAX_TIME_OFFSET <= value.int_32 <= MAX_TIME_OFFSET,
        _ => true,
    }
}

/// The options after one of them was given a value.
pub open spec fn applied(options: ExfatMountOptions, option: ExfatOptions, value: ParseResult) -> ExfatMountOptions {
    match option {
        ExfatOptions::Uid => ExfatMountOptions { fs_uid: value.uint_32, ..options },
        ExfatOptions::Gid => ExfatMountOptions { fs_gid: value.uint_32, ..options },
        ExfatOptions::Umask => ExfatMountOptions {
            fs_fmask: low_half(value.uint_32),
            fs_dmask: low_half(value.uint_32),
            ..options
        },
        ExfatOptions::Dmask => ExfatMountOptions { fs_dmask: low_half(value.uint_32), ..options },
        ExfatOptions::Fmask => ExfatMountOptions { fs_fmask: low_half(value.uint_32), ..options },
        ExfatOptions::AllowUtime => ExfatMountOptions {
            allow_utime: low_half(value.uint_32) & UTIME_MASK,
            ..options
        },
        ExfatOptions::Charset => ExfatMountOptions { iocharset: value.string, ..options },
        ExfatOptions::Errors => ExfatMountOptions {
            errors: if value.uint_32 == 0 {
                ExfatErrorMode::Continue
            } else if value.uint_32 == 1 {
                ExfatErrorMode::Panic
            } else {
                ExfatErrorMode::RemountRo
            },
            ..options
        },
        ExfatOptions::TimeOffset => ExfatMountOptions { time_offset: value.int_32, ..options },
        _ => options,
    }
}

/// Gives the option with the number `opt` the value that the host has
/// parsed for it.
///
/// A negative number is the error of the host's parser: it is handed back
/// and nothing changes. A number of no option and a value that the option
/// cannot have are `InvalidFormat`, and nothing changes.
pub fn parse_param(options: &mut ExfatMountOptions, opt: i32, value: ParseResult) -> (r: Result<i32>)
    ensures
        opt < 0 ==> r == Ok::<i32, Error>(opt) && *final(options) == *old(options),
        opt >= 0 ==> match ExfatOptions::spec_from_c_int(opt) {
            None => r == Err::<i32, Error>(Error::InvalidFormat) && *final(options) == *old(options),
            Some(option) => if value_accepted(option, value) {
                r == Ok::<i32, Error>(0) && *final(options) == applied(*old(options), option, value)
            } else {
                r == Err::<i32, Error>(Error::InvalidFormat) && *final(options) == *old(options)
            },
        },
{
    if opt < 0 {
        return Ok(opt);
    }
    let option = match ExfatOptions::from_c_int(opt) {
        Err(e) => {
            return Err(e);
        },
        Ok(option) => option,
    };
    match option {
        ExfatOptions::Uid => {
            options.fs_uid = value.uint_32;
        },
        ExfatOptions::Gid => {
            options.fs_gid = value.uint_32;
        },
        ExfatOptions::Umask => {
            options.fs_fmask = low(value.uint_32);
            options.fs_dmask = low(value.uint_32);
        },
        ExfatOptions::Dmask => {
            options.fs_dmask = low(value.uint_32);
        },
        ExfatOptions::Fmask => {
            options.fs_fmask = low(value.uint_32);
        },
        ExfatOptions::AllowUtime => {
            options.allow_utime = low(value.uint_32) & UTIME_MASK;
        },
        ExfatOptions::Charset => {
            options.iocharset = value.string;
        },
        ExfatOptions::Errors => {
            options.errors = match ExfatErrorMode::from_c_int(value.uint_32) {
                Err(e) => {
                    return Err(e);
                },
                Ok(mode) => mode,
            };
        },
        ExfatOptions::TimeOffset => {
            // the limit is a day, just in case someone invents something unusual
            if value.int_32 < -MAX_TIME_OFFSET || value.int_32 > MAX_TIME_OFFSET {
                return Err(Error::InvalidFormat);
            }
            options.time_offset = value.int_32;
        },
        _ => {},
    }
    Ok(0)
}

/// The bytes of the name `utf8`.
pub open spec fn utf8_name() -> Seq<u8> {
    seq![0x75u8, 0x74, 0x66, 0x38]
}

/// The options before any of them was given a value.
pub fn read_mount_options() -> (r: ExfatMountOptions)
    ensures
        r.fs_uid == 0,
        r.fs_gid == 0,
        r.fs_fmask == 0,
        r.fs_dmask == 0,
        r.allow_utime == ALLOW_UTIME_UNSET,
        r.iocharset@ == utf8_name(),
        r.errors == ExfatErrorMode::RemountRo,
        r.utf8,
        !r.discard,
        r.time_offset == 0,
{
    let mut iocharset: Vec<u8> = Vec::new();
    iocharset.push(0x75);
    iocharset.push(0x74);
    iocharset.push(0x66);
    iocharset.push(0x38);
    ExfatMountOptions {
        fs_uid: 0,
        fs_gid: 0,
        fs_fmask: 0,
        fs_dmask: 0,
        allow_utime: ALLOW_UTIME_UNSET,
        iocharset,
        errors: ExfatErrorMode::RemountRo,
        utf8: true,
        discard: false,
        time_offset: 0,
    }
}

/// The options as a mount uses them: `allow_utime` that no option has set
/// is what the directory mask leaves of group and others; `discard` holds
/// only where the device supports it; `utf8` holds where the character set
/// is named `utf8`.
pub open spec fn completed(options: ExfatMountOptions, device_discards: bool) -> ExfatMountOptions {
    ExfatMountOptions {
        allow_utime: if options.allow_utime == ALLOW_UTIME_UNSET {
            !options.fs_dmask & UTIME_MASK
        } else {
            options.allow_utime
        },
        discard: options.discard && device_discards,
        utf8: options.utf8 || options.iocharset@ == utf8_name(),
        ..options
    }
}

/// Completes the options for a mount.
pub fn complete_options(options: &mut ExfatMountOptions, device_discards: bool)
    ensures
        *final(options) == completed(*old(options), device_discards),
{
    if options.allow_utime == ALLOW_UTIME_UNSET {
        options.allow_utime = !options.fs_dmask & UTIME_MASK;
    }
    if options.discard && !device_discards {
        options.discard = false;
    }
    let named_utf8 = options.iocharset.len() == 4 && options.iocharset[0] == 0x75
        && options.iocharset[1] == 0x74 && options.iocharset[2] == 0x66 && options.iocharset[3]
        == 0x38;
    proof {
        if named_utf8 {
            assert(options.iocharset@ =~= utf8_name());
        }
    }
    if named_utf8 {
        options.utf8 = true;
    }
}

} // verus!
