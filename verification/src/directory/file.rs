//! The directory record that starts the entry set of a file: attributes and
//! timestamps.

use vstd::prelude::*;
use crate::bytes::{le16, read_u16_le};
use crate::math::TimeSpec64;
use crate::superblock::SbInfo;

verus! {

/// The file mode bit of a directory.
pub const S_IFDIR: u16 = 0o040000;

/// The file mode bit of a regular file.
pub const S_IFREG: u16 = 0o100000;

/// The attributes of the root directory: a directory.
pub const ROOT_FILE_ATTRIBUTE: u16 = 0x0010;

/// The seconds of a minute.
pub const SECS_PER_MIN: i64 = 60;

/// The nanoseconds of a hundredth of a second.
pub const NSEC_PER_CSEC: i64 = 10_000_000;

/// The bit of a time zone byte that says the byte holds a time zone.
pub const TZ_VALID_BIT: u8 = 0x80;

/// A timestamp as a directory record holds it: two seconds, minutes and
/// hours packed in `time`; day, month and years since 1980 packed in `date`.
#[derive(Clone, Copy, Debug, PartialEq, Eq, Structural)]
pub struct TimeStamp {
    pub time: u16,
    pub date: u16,
}

/// The attribute bits of a [`File`].
#[derive(Clone, Copy, Debug, PartialEq, Eq, Structural)]
pub struct FileAttributes {
    pub bits: u16,
}

/// A file directory record.
#[derive(Clone, Copy, Debug)]
pub struct File {
    pub secondary_count: u8,
    pub set_checksum: u16,
    pub file_attributes: FileAttributes,
    pub create_timestamp: TimeStamp,
    pub last_modified_timestamp: TimeStamp,
    pub last_accessed_timestamp: TimeStamp,
    pub create_10ms_increments: u8,
    pub last_modified_10ms_increments: u8,
    pub create_utc_offset: u8,
    pub last_modified_utc_offset: u8,
    pub last_accessed_utc_offset: u8,
}

/// The seconds since the start of 1970 of a date and a time of day, by the
/// rule of Gauss: the year starts in March, so that the leap day comes last.
pub open spec fn spec_mktime64(year: int, mon: int, day: int, hour: int, min: int, sec: int) -> int {
    let m = if mon <= 2 {
        mon + 10
    } else {
        mon - 2
    };
    let y = if mon <= 2 {
        year - 1
    } else {
        year
    };
    ((((y / 4 - y / 100 + y / 400 + 367 * m / 12 + day) + y * 365 - 719499) * 24 + hour) * 60
        + min) * 60 + sec
}

/// The seconds since the start of 1970 of a date and a time of day.
pub fn mktime64(year: u32, mon: u32, day: u32, hour: u32, min: u32, sec: u32) -> (r: i64)
    requires
        year >= 1,
    ensures
        r == spec_mktime64(year as int, mon as int, day as int, hour as int, min as int, sec as int),
{
    let m: i64 = if mon <= 2 {
        mon as i64 + 10
    } else {
        mon as i64 - 2
    };
    let y: i64 = if mon <= 2 {
        year as i64 - 1
    } else {
        year as i64
    };
    let days: i64 = (y / 4 - y / 100 + y / 400 + 367 * m / 12 + day as i64) + y * 365 - 719499;
    ((days * 24 + hour as i64) * 60 + min as i64) * 60 + sec as i64
}

/// The seconds that a time zone byte moves a local time to reach UTC. The
/// byte counts quarters of an hour, in seven bits with a sign.
pub open spec fn tz_seconds(offset: u8) -> int {
    if offset <= 0x3F {
        -(offset as int * 15 * 60)
    } else {
        (0x80 - offset as int) * 15 * 60
    }
}

impl TimeStamp {
    /// The seconds of the timestamp: they are stored in steps of two.
    pub open spec fn seconds(&self) -> int {
        (self.time as int % 32) * 2
    }

    /// The minute of the timestamp.
    pub open spec fn minute(&self) -> int {
        (self.time as int / 32) % 64
    }

    /// The hour of the timestamp.
    pub open spec fn hour(&self) -> int {
        self.time as int / 2048
    }

    /// The day of the month.
    pub open spec fn day(&self) -> int {
        self.date as int % 32
    }

    /// The month of the year.
    pub open spec fn month(&self) -> int {
        (self.date as int / 32) % 16
    }

    /// The year: the timestamp counts from 1980.
    pub open spec fn year(&self) -> int {
        1980 + self.date as int / 512
    }

    /// The point in time that the timestamp denotes, with `time_cs`
    /// hundredths of a second added. A time zone byte with its valid bit set
    /// gives the zone of the timestamp; without it the timestamp is local
    /// time, `time_offset` minutes off UTC.
    #[verifier::opaque]
    pub open spec fn unix_time(&self, time_offset: int, time_cs: u8, tz: u8) -> TimeSpec64 {
        let base = spec_mktime64(
            self.year(),
            self.month(),
            self.day(),
            self.hour(),
            self.minute(),
            self.seconds(),
        ) + time_cs as int / 100;
        let shift = if tz >= TZ_VALID_BIT {
            tz_seconds((tz - TZ_VALID_BIT) as u8)
        } else {
            -(time_offset * 60)
        };
        TimeSpec64 {
            tv_sec: (base + shift) as i64,
            tv_nsec: ((time_cs as int % 100) * NSEC_PER_CSEC) as i64,
        }
    }

    /// Converts the timestamp to a point in time.
    pub fn to_unix_time(&self, sbi: &SbInfo, time_cs: u8, tz: u8) -> (r: TimeSpec64)
        ensures
            r == self.unix_time(sbi.options.time_offset as int, time_cs, tz),
    {
        reveal(TimeStamp::unix_time);
        let seconds: u32 = (self.time as u32 % 32) * 2;
        let minute: u32 = (self.time as u32 / 32) % 64;
        let hour: u32 = self.time as u32 / 2048;
        let day: u32 = self.date as u32 % 32;
        let month: u32 = (self.date as u32 / 32) % 16;
        let year: u32 = 1980 + self.date as u32 / 512;

        let mut ts = TimeSpec64 { tv_sec: mktime64(year, month, day, hour, minute, seconds), tv_nsec: 0 };
        // the hundredths cover up to two seconds
        if time_cs != 0 {
            ts.tv_sec = ts.tv_sec + (time_cs / 100) as i64;
            ts.tv_nsec = (time_cs % 100) as i64 * NSEC_PER_CSEC;
        }
        if tz >= TZ_VALID_BIT {
            adjust_tz(&mut ts, tz - TZ_VALID_BIT);
        } else {
            ts.tv_sec = ts.tv_sec - sbi.options.time_offset as i64 * SECS_PER_MIN;
        }
        ts
    }
}

/// Moves a local time by its time zone to UTC.
fn adjust_tz(ts: &mut TimeSpec64, offset: u8)
    requires
        offset < 0x80,
        -0x1000_0000_0000 <= old(ts).tv_sec <= 0x1000_0000_0000,
    ensures
        final(ts).tv_sec == old(ts).tv_sec + tz_seconds(offset),
        final(ts).tv_nsec == old(ts).tv_nsec,
{
    if offset <= 0x3F {
        ts.tv_sec = ts.tv_sec - offset as i64 * 15 * SECS_PER_MIN;
    } else {
        ts.tv_sec = ts.tv_sec + (0x80 - offset as i64) * 15 * SECS_PER_MIN;
    }
}

/// True when bit `n` of `bits` is set.
pub open spec fn spec_bit(bits: u16, n: usize) -> bool {
    (bits >> n) & 1 == 1
}

/// Read a single bit of an integer.
pub fn bit<const N: usize>(byte: u16) -> (r: bool)
    requires
        N < 16,
    ensures
        r == spec_bit(byte, N),
{
    (byte >> N) & 1 == 1
}

impl FileAttributes {
    /// The attributes with the given bits.
    pub fn from_u16(num: u16) -> (r: Self)
        ensures
            r.bits == num,
    {
        FileAttributes { bits: num }
    }

    /// True for a file that must not be written.
    pub open spec fn spec_read_only(&self) -> bool {
        spec_bit(self.bits, 0)
    }

    /// True for a directory.
    pub open spec fn spec_directory(&self) -> bool {
        spec_bit(self.bits, 4)
    }

    /// True for a file that must not be written.
    pub fn read_only(&self) -> (r: bool)
        ensures
            r == self.spec_read_only(),
    {
        bit::<0>(self.bits)
    }

    /// True for a file that listings leave out.
    pub fn hidden(&self) -> (r: bool)
        ensures
            r == spec_bit(self.bits, 1),
    {
        bit::<1>(self.bits)
    }

    /// True for a file of the operating system.
    pub fn system(&self) -> (r: bool)
        ensures
            r == spec_bit(self.bits, 2),
    {
        bit::<2>(self.bits)
    }

    /// True for a directory.
    pub fn directory(&self) -> (r: bool)
        ensures
            r == self.spec_directory(),
    {
        bit::<4>(self.bits)
    }

    /// True for a file that was changed since its last backup.
    pub fn archive(&self) -> (r: bool)
        ensures
            r == spec_bit(self.bits, 5),
    {
        bit::<5>(self.bits)
    }

    /// The file mode of a file with these attributes, made of the permission
    /// bits `mode`: a directory loses the bits of `dmask`; a regular file
    /// loses the bits of `fmask` and, where it is read-only, the write bits.
    pub open spec fn unix_mode(&self, mode: u16, fmask: u16, dmask: u16) -> u16 {
        if self.spec_directory() {
            (mode & !dmask) | S_IFDIR
        } else if self.spec_read_only() {
            ((mode & !0o222u16) & !fmask) | S_IFREG
        } else {
            (mode & !fmask) | S_IFREG
        }
    }

    /// Convert exFAT file attributes to the UNIX mode.
    pub fn to_unix(&self, mode: u16, sb_info: &SbInfo) -> (r: u16)
        ensures
            r == self.unix_mode(mode, sb_info.options.fs_fmask, sb_info.options.fs_dmask),
    {
        let mut mode = mode;
        if self.directory() {
            return (mode & !sb_info.options.fs_dmask) | S_IFDIR;
        }
        if self.read_only() {
            mode = mode & !0o222u16;
        }
        (mode & !sb_info.options.fs_fmask) | S_IFREG
    }
}

impl File {
    /// The record that the 32 bytes hold.
    pub open spec fn decode(bytes: Seq<u8>) -> File {
        File {
            secondary_count: bytes[1],
            set_checksum: le16(bytes, 2),
            file_attributes: FileAttributes { bits: le16(bytes, 4) },
            create_timestamp: TimeStamp { time: le16(bytes, 8), date: le16(bytes, 10) },
            last_modified_timestamp: TimeStamp { time: le16(bytes, 12), date: le16(bytes, 14) },
            last_accessed_timestamp: TimeStamp { time: le16(bytes, 16), date: le16(bytes, 18) },
            create_10ms_increments: bytes[20],
            last_modified_10ms_increments: bytes[21],
            create_utc_offset: bytes[22],
            last_modified_utc_offset: bytes[23],
            last_accessed_utc_offset: bytes[24],
        }
    }

    /// Convert to this type from the on-disk representation of a file record.
    pub fn from_bytes(bytes: [u8; 32]) -> (r: Self)
        ensures
            r == Self::decode(bytes@),
    {
        let data = bytes.as_slice();
        File {
            secondary_count: data[1],
            set_checksum: read_u16_le(data, 2),
            file_attributes: FileAttributes { bits: read_u16_le(data, 4) },
            create_timestamp: TimeStamp { time: read_u16_le(data, 8), date: read_u16_le(data, 10) },
            last_modified_timestamp: TimeStamp {
                time: read_u16_le(data, 12),
                date: read_u16_le(data, 14),
            },
            last_accessed_timestamp: TimeStamp {
                time: read_u16_le(data, 16),
                date: read_u16_le(data, 18),
            },
            create_10ms_increments: data[20],
            last_modified_10ms_increments: data[21],
            create_utc_offset: data[22],
            last_modified_utc_offset: data[23],
            last_accessed_utc_offset: data[24],
        }
    }

    /// When the file was created.
    pub open spec fn spec_create_time(&self, time_offset: int) -> TimeSpec64 {
        self.create_timestamp.unix_time(
            time_offset,
            self.create_10ms_increments,
            self.create_utc_offset,
        )
    }

    /// When the file was last modified.
    pub open spec fn spec_modified_time(&self, time_offset: int) -> TimeSpec64 {
        self.last_modified_timestamp.unix_time(
            time_offset,
            self.last_modified_10ms_increments,
            self.last_modified_utc_offset,
        )
    }

    /// When the file was last accessed.
    pub open spec fn spec_access_time(&self, time_offset: int) -> TimeSpec64 {
        self.last_accessed_timestamp.unix_time(time_offset, 0, self.last_accessed_utc_offset)
    }

    /// When the file was created.
    pub fn create_time(&self, sb_info: &SbInfo) -> (r: TimeSpec64)
        ensures
            r == self.spec_create_time(sb_info.options.time_offset as int),
    {
        self.create_timestamp.to_unix_time(
            sb_info,
            self.create_10ms_increments,
            self.create_utc_offset,
        )
    }

    /// When the file was last modified.
    pub fn modified_time(&self, sb_info: &SbInfo) -> (r: TimeSpec64)
        ensures
            r == self.spec_modified_time(sb_info.options.time_offset as int),
    {
        self.last_modified_timestamp.to_unix_time(
            sb_info,
            self.last_modified_10ms_increments,
            self.last_modified_utc_offset,
        )
    }

    /// When the file was last accessed.
    pub fn access_time(&self, sb_info: &SbInfo) -> (r: TimeSpec64)
        ensures
            r == self.spec_access_time(sb_info.options.time_offset as int),
    {
        self.last_accessed_timestamp.to_unix_time(sb_info, 0, self.last_accessed_utc_offset)
    }
}

} // verus!
