//! The case folding of file names.

use vstd::prelude::*;
use crate::superblock::SbInfo;
use crate::upcase::UTBL_COUNT;

verus! {

/// The largest number of UTF-16 code units of a file name.
pub const MAX_NAME_LEN: i32 = 255;

/// The largest number of bytes that encode one character of a name.
pub const MAX_CHARSET_SIZE: u32 = 6;

/// The upper-case form of a code unit by a table: the entry of the code
/// unit, and the code unit itself where the entry is zero.
pub open spec fn spec_to_upper(table: Seq<u16>, char16: u16) -> u16 {
    if table[char16 as int] != 0 {
        table[char16 as int]
    } else {
        char16
    }
}

/// The upper-case form of a code unit by the up-case table of the volume.
pub fn to_upper(sb_info: &SbInfo, char16: u16) -> (r: u16)
    requires
        sb_info.upcase_table@.len() == UTBL_COUNT,
    ensures
        r == spec_to_upper(sb_info.upcase_table@, char16),
{
    let val = sb_info.upcase_table[char16 as usize];
    if val != 0 {
        return val;
    }
    char16
}

/// True for a code unit that a name cannot hold: a control character, or
/// one of `" * / : < > ? \ |`.
pub open spec fn is_bad_character(char16: u16) -> bool {
    ||| char16 < 0x0020
    ||| char16 == 0x0022
    ||| char16 == 0x002A
    ||| char16 == 0x002F
    ||| char16 == 0x003A
    ||| char16 == 0x003C
    ||| char16 == 0x003E
    ||| char16 == 0x003F
    ||| char16 == 0x005C
    ||| char16 == 0x007C
}

fn bad_character(char16: u16) -> (r: bool)
    ensures
        r == is_bad_character(char16),
{
    char16 < 0x0020 || char16 == 0x0022 || char16 == 0x002A || char16 == 0x002F || char16 == 0x003A
        || char16 == 0x003C || char16 == 0x003E || char16 == 0x003F || char16 == 0x005C || char16
        == 0x007C
}

/// A name in UTF-16, as it is looked up.
pub struct UTF16String {
    /// The code units of the name.
    pub units: Vec<u16>,
    /// The upper-case form of each code unit.
    pub uppercase: Vec<u16>,
    /// True when the name holds a character that a name cannot hold.
    pub lossy: bool,
}

impl UTF16String {
    /// The name with the code units `units`, with its upper-case form by
    /// the up-case table of the volume. `None` for a name of more code
    /// units than a name can have.
    pub fn from_utf16(sb_info: &SbInfo, units: Vec<u16>) -> (r: Option<Self>)
        requires
            sb_info.upcase_table@.len() == UTBL_COUNT,
        ensures
            r is Some <==> units@.len() <= MAX_NAME_LEN,
            r matches Some(name) ==> {
                &&& name.units@ == units@
                &&& name.uppercase@ == units@.map_values(
                    |c: u16| spec_to_upper(sb_info.upcase_table@, c),
                )
                &&& name.lossy == exists|i: int|
                    0 <= i < units@.len() && is_bad_character(#[trigger] units@[i])
            },
    {
        if units.len() > MAX_NAME_LEN as usize {
            return None;
        }
        let mut uppercase: Vec<u16> = Vec::new();
        let mut lossy = false;
        let mut i: usize = 0;
        while i < units.len()
            invariant
                i <= units@.len(),
                sb_info.upcase_table@.len() == UTBL_COUNT,
                uppercase@ == units@.take(i as int).map_values(
                    |c: u16| spec_to_upper(sb_info.upcase_table@, c),
                ),
                lossy == exists|j: int| 0 <= j < i && is_bad_character(#[trigger] units@[j]),
            decreases units@.len() - i,
        {
            let char16 = units[i];
            if bad_character(char16) {
                lossy = true;
            }
            uppercase.push(to_upper(sb_info, char16));
            i += 1;
        }
        Some(UTF16String { units, uppercase, lossy })
    }
}

} // verus!
