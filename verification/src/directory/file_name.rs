//! The directory record that holds a part of the name of a file.

use vstd::prelude::*;
use vstd::utf8::is_scalar;
use crate::bytes::{le16, read_u16_le};
use crate::error::{Error, Result};

verus! {

/// The number of UTF-16 code units that a file name record holds.
pub const FILE_NAME_CAPACITY: usize = 15;

/// A file name directory record.
#[derive(Clone, Copy, Debug)]
pub struct FileName {
    pub general_secondary_flags: u8,
    /// The code units of the record; a name that ends in the record is
    /// followed by zeros.
    pub file_name: [u16; 15],
}

/// `char::from_u32` of the standard library: the character with the given
/// scalar value, and `None` for a number that is no scalar value, which is
/// a surrogate or a number above 0x10FFFF.
pub assume_specification[ char::from_u32 ](i: u32) -> (r: Option<char>)
    ensures
        is_scalar(i) ==> r == Some(i as char),
        !is_scalar(i) ==> r is None,
;

/// The code units before the first zero.
pub open spec fn name_units(units: Seq<u16>) -> Seq<u16>
    decreases units.len(),
{
    if units.len() == 0 || units[0] == 0 {
        Seq::empty()
    } else {
        seq![units[0]] + name_units(units.drop_first())
    }
}

/// True for the first half of a surrogate pair.
pub open spec fn is_high_surrogate(unit: u16) -> bool {
    0xD800 <= unit <= 0xDBFF
}

/// True for the second half of a surrogate pair.
pub open spec fn is_low_surrogate(unit: u16) -> bool {
    0xDC00 <= unit <= 0xDFFF
}

/// The scalar value that a surrogate pair stands for.
pub open spec fn surrogate_pair(high: u16, low: u16) -> u32 {
    (0x1_0000 + (high - 0xD800) * 0x400 + (low - 0xDC00)) as u32
}

/// The characters that the code units encode in UTF-16, or `None` where
/// a surrogate stands without its partner.
pub open spec fn decode_utf16(units: Seq<u16>) -> Option<Seq<char>>
    decreases units.len(),
{
    if units.len() == 0 {
        Some(Seq::empty())
    } else if !is_high_surrogate(units[0]) && !is_low_surrogate(units[0]) {
        match decode_utf16(units.drop_first()) {
            Some(rest) => Some(seq![units[0] as char] + rest),
            None => None,
        }
    } else if is_high_surrogate(units[0]) && units.len() >= 2 && is_low_surrogate(units[1]) {
        match decode_utf16(units.skip(2)) {
            Some(rest) => Some(seq![surrogate_pair(units[0], units[1]) as char] + rest),
            None => None,
        }
    } else {
        None
    }
}

/// The characters `head`, followed by `tail` where there is one.
pub open spec fn prepend(head: Seq<char>, tail: Option<Seq<char>>) -> Option<Seq<char>> {
    match tail {
        Some(rest) => Some(head + rest),
        None => None,
    }
}

proof fn lemma_name_units(units: Seq<u16>, n: int)
    requires
        0 <= n <= units.len(),
        forall|j: int| 0 <= j < n ==> units[j] != 0,
        n == units.len() || units[n] == 0,
    ensures
        name_units(units) == units.take(n),
    decreases n,
{
    if n == 0 {
    } else {
        lemma_name_units(units.drop_first(), n - 1);
    }
}

impl FileName {
    /// The code units that the 32 bytes hold.
    pub open spec fn decode_units(bytes: Seq<u8>) -> Seq<u16> {
        Seq::new(15, |i: int| le16(bytes, 2 + 2 * i))
    }

    /// The record that the 32 bytes hold.
    pub open spec fn decode(bytes: Seq<u8>) -> FileName {
        FileName {
            general_secondary_flags: bytes[1],
            file_name: choose|units: [u16; 15]| units@ == Self::decode_units(bytes),
        }
    }

    /// Convert to this type from the on-disk representation of a file name
    /// record.
    pub fn from_bytes(bytes: [u8; 32]) -> (r: Self)
        ensures
            r == Self::decode(bytes@),
            r.file_name@ == Self::decode_units(bytes@),
    {
        let data = bytes.as_slice();
        let r = FileName {
            general_secondary_flags: data[1],
            file_name: [
                read_u16_le(data, 2),
                read_u16_le(data, 4),
                read_u16_le(data, 6),
                read_u16_le(data, 8),
                read_u16_le(data, 10),
                read_u16_le(data, 12),
                read_u16_le(data, 14),
                read_u16_le(data, 16),
                read_u16_le(data, 18),
                read_u16_le(data, 20),
                read_u16_le(data, 22),
                read_u16_le(data, 24),
                read_u16_le(data, 26),
                read_u16_le(data, 28),
                read_u16_le(data, 30),
            ],
        };
        assert(r.file_name@ =~= Self::decode_units(bytes@));
        assert(Self::decode(bytes@).file_name =~= r.file_name);
        r
    }

    /// The number of UTF-16 code units that this can contain.
    pub fn capacity(&self) -> (r: usize)
        ensures
            r == FILE_NAME_CAPACITY,
    {
        FILE_NAME_CAPACITY
    }

    /// The characters of the record, where its code units are valid UTF-16.
    pub open spec fn spec_chars(&self) -> Option<Seq<char>> {
        decode_utf16(name_units(self.file_name@))
    }

    /// The characters of the record: its code units before the first zero,
    /// decoded as UTF-16. A surrogate without its partner is `Corruption`.
    pub fn chars(&self) -> (r: Result<Vec<char>>)
        ensures
            match self.spec_chars() {
                Some(chars) => r matches Ok(v) && v@ == chars,
                None => r == Err::<Vec<char>, Error>(Error::Corruption),
            },
    {
        let mut len: usize = 0;
        while len < FILE_NAME_CAPACITY && self.file_name[len] != 0
            invariant
                len <= FILE_NAME_CAPACITY,
                forall|j: int| 0 <= j < len ==> self.file_name@[j] != 0,
            decreases FILE_NAME_CAPACITY - len,
        {
            len += 1;
        }
        let ghost units = self.file_name@.take(len as int);
        proof {
            lemma_name_units(self.file_name@, len as int);
            assert(units.skip(0) =~= units);
        }
        let mut out: Vec<char> = Vec::new();
        let mut i: usize = 0;
        while i < len
            invariant
                i <= len <= FILE_NAME_CAPACITY,
                units == self.file_name@.take(len as int),
                name_units(self.file_name@) == units,
                decode_utf16(units) == prepend(out@, decode_utf16(units.skip(i as int))),
            decreases len - i,
        {
            let unit: u16 = self.file_name[i];
            let ghost rest = units.skip(i as int);
            proof {
                assert(rest.drop_first() =~= units.skip(i + 1));
            }
            if unit < 0xD800 || unit > 0xDFFF {
                match char::from_u32(unit as u32) {
                    Some(c) => {
                        out.push(c);
                    },
                    None => {
                        return Err(Error::Corruption);
                    },
                }
                i += 1;
            } else if unit <= 0xDBFF && i + 1 < len {
                let low: u16 = self.file_name[i + 1];
                if low < 0xDC00 || low > 0xDFFF {
                    return Err(Error::Corruption);
                }
                let scalar: u32 = 0x1_0000 + (unit as u32 - 0xD800) * 0x400 + (low as u32 - 0xDC00);
                match char::from_u32(scalar) {
                    Some(c) => {
                        proof {
                            assert(rest.skip(2) =~= units.skip(i + 2));
                        }
                        out.push(c);
                    },
                    None => {
                        return Err(Error::Corruption);
                    },
                }
                i += 2;
            } else {
                return Err(Error::Corruption);
            }
        }
        Ok(out)
    }
}

} // verus!
