//! Integers in a byte order that does not depend on the machine.

use vstd::prelude::*;
use vstd::endian::endianness;

verus! {

/// The bytes of a 16-bit integer in reverse order.
pub open spec fn swap_u16(x: u16) -> u16 {
    (x << 8) | (x >> 8)
}

/// The bytes of a 32-bit integer in reverse order.
pub open spec fn swap_u32(x: u32) -> u32 {
    (x << 24) | ((x & 0xFF00) << 8) | ((x >> 8) & 0xFF00) | (x >> 24)
}

/// The bytes of a 64-bit integer in reverse order.
pub open spec fn swap_u64(x: u64) -> u64 {
    (x << 56) | ((x & 0xFF00) << 40) | ((x & 0xFF_0000) << 24) | ((x & 0xFF00_0000) << 8) | ((x
        >> 8) & 0xFF00_0000) | ((x >> 24) & 0xFF_0000) | ((x >> 40) & 0xFF00) | (x >> 56)
}

/// `u16::to_be` of the standard library: the integer unchanged on a
/// big-endian machine, with its bytes swapped on a little-endian one.
pub assume_specification[ u16::to_be ](x: u16) -> (r: u16)
    ensures
        r == (if endianness() is Big {
            x
        } else {
            swap_u16(x)
        }),
;

/// `u16::to_le` of the standard library: the integer unchanged on a
/// little-endian machine, with its bytes swapped on a big-endian one.
pub assume_specification[ u16::to_le ](x: u16) -> (r: u16)
    ensures
        r == (if endianness() is Little {
            x
        } else {
            swap_u16(x)
        }),
;

/// `u16::from_be` of the standard library: the integer unchanged on a
/// big-endian machine, with its bytes swapped on a little-endian one.
pub assume_specification[ u16::from_be ](x: u16) -> (r: u16)
    ensures
        r == (if endianness() is Big {
            x
        } else {
            swap_u16(x)
        }),
;

/// `u16::from_le` of the standard library: the integer unchanged on a
/// little-endian machine, with its bytes swapped on a big-endian one.
pub assume_specification[ u16::from_le ](x: u16) -> (r: u16)
    ensures
        r == (if endianness() is Little {
            x
        } else {
            swap_u16(x)
        }),
;

/// `u32::to_be` of the standard library: the integer unchanged on a
/// big-endian machine, with its bytes swapped on a little-endian one.
pub assume_specification[ u32::to_be ](x: u32) -> (r: u32)
    ensures
        r == (if endianness() is Big {
            x
        } else {
            swap_u32(x)
        }),
;

/// `u32::to_le` of the standard library: the integer unchanged on a
/// little-endian machine, with its bytes swapped on a big-endian one.
pub assume_specification[ u32::to_le ](x: u32) -> (r: u32)
    ensures
        r == (if endianness() is Little {
            x
        } else {
            swap_u32(x)
        }),
;

/// `u32::from_be` of the standard library: the integer unchanged on a
/// big-endian machine, with its bytes swapped on a little-endian one.
pub assume_specification[ u32::from_be ](x: u32) -> (r: u32)
    ensures
        r == (if endianness() is Big {
            x
        } else {
            swap_u32(x)
        }),
;

/// `u32::from_le` of the standard library: the integer unchanged on a
/// little-endian machine, with its bytes swapped on a big-endian one.
pub assume_specification[ u32::from_le ](x: u32) -> (r: u32)
    ensures
        r == (if endianness() is Little {
            x
        } else {
            swap_u32(x)
        }),
;

/// `u64::to_be` of the standard library: the integer unchanged on a
/// big-endian machine, with its bytes swapped on a little-endian one.
pub assume_specification[ u64::to_be ](x: u64) -> (r: u64)
    ensures
        r == (if endianness() is Big {
            x
        } else {
            swap_u64(x)
        }),
;

/// `u64::to_le` of the standard library: the integer unchanged on a
/// little-endian machine, with its bytes swapped on a big-endian one.
pub assume_specification[ u64::to_le ](x: u64) -> (r: u64)
    ensures
        r == (if endianness() is Little {
            x
        } else {
            swap_u64(x)
        }),
;

/// `u64::from_be` of the standard library: the integer unchanged on a
/// big-endian machine, with its bytes swapped on a little-endian one.
pub assume_specification[ u64::from_be ](x: u64) -> (r: u64)
    ensures
        r == (if endianness() is Big {
            x
        } else {
            swap_u64(x)
        }),
;

/// `u64::from_le` of the standard library: the integer unchanged on a
/// little-endian machine, with its bytes swapped on a big-endian one.
pub assume_specification[ u64::from_le ](x: u64) -> (r: u64)
    ensures
        r == (if endianness() is Little {
            x
        } else {
            swap_u64(x)
        }),
;

/// Define conversions to/from this type in its big/little-endian form.
pub trait SpecificEndian: Copy {
    /// The value with its bytes in reverse order.
    spec fn swapped(self) -> Self;

    /// Reversing the bytes twice gives the value back.
    proof fn lemma_swapped_twice(self)
        ensures
            self.swapped().swapped() == self,
    ;

    /// Convert this CPU native value to its big-endian form.
    fn to_big_endian(&self) -> (r: Self)
        ensures
            r == (if endianness() is Big {
                *self
            } else {
                self.swapped()
            }),
    ;

    /// Convert this CPU native value to its little-endian form.
    fn to_little_endian(&self) -> (r: Self)
        ensures
            r == (if endianness() is Little {
                *self
            } else {
                self.swapped()
            }),
    ;

    /// Convert the big-endian form of this value to its CPU native form.
    fn from_big_endian(&self) -> (r: Self)
        ensures
            r == (if endianness() is Big {
                *self
            } else {
                self.swapped()
            }),
    ;

    /// Convert the little-endian form of this value to its CPU native form.
    fn from_little_endian(&self) -> (r: Self)
        ensures
            r == (if endianness() is Little {
                *self
            } else {
                self.swapped()
            }),
    ;
}

/// The little-endian form of a native value, and the native value of a
/// little-endian form: the value itself on a little-endian machine, and the
/// value with its bytes reversed on a big-endian one.
pub open spec fn little_endian_form<T: SpecificEndian>(x: T) -> T {
    if endianness() is Little {
        x
    } else {
        x.swapped()
    }
}

/// The big-endian form of a native value, and the native value of a
/// big-endian form.
pub open spec fn big_endian_form<T: SpecificEndian>(x: T) -> T {
    if endianness() is Big {
        x
    } else {
        x.swapped()
    }
}

impl SpecificEndian for u16 {
    open spec fn swapped(self) -> u16 {
        swap_u16(self)
    }

    proof fn lemma_swapped_twice(self) {
        assert(swap_u16(swap_u16(self)) == self) by (bit_vector);
    }

    fn to_big_endian(&self) -> (r: Self) {
        self.to_be()
    }

    fn to_little_endian(&self) -> (r: Self) {
        self.to_le()
    }

    fn from_big_endian(&self) -> (r: Self) {
        u16::from_be(*self)
    }

    fn from_little_endian(&self) -> (r: Self) {
        u16::from_le(*self)
    }
}

impl SpecificEndian for u32 {
    open spec fn swapped(self) -> u32 {
        swap_u32(self)
    }

    proof fn lemma_swapped_twice(self) {
        assert(swap_u32(swap_u32(self)) == self) by (bit_vector);
    }

    fn to_big_endian(&self) -> (r: Self) {
        self.to_be()
    }

    fn to_little_endian(&self) -> (r: Self) {
        self.to_le()
    }

    fn from_big_endian(&self) -> (r: Self) {
        u32::from_be(*self)
    }

    fn from_little_endian(&self) -> (r: Self) {
        u32::from_le(*self)
    }
}

impl SpecificEndian for u64 {
    open spec fn swapped(self) -> u64 {
        swap_u64(self)
    }

    proof fn lemma_swapped_twice(self) {
        assert(swap_u64(swap_u64(self)) == self) by (bit_vector);
    }

    fn to_big_endian(&self) -> (r: Self) {
        self.to_be()
    }

    fn to_little_endian(&self) -> (r: Self) {
        self.to_le()
    }

    fn from_big_endian(&self) -> (r: Self) {
        u64::from_be(*self)
    }

    fn from_little_endian(&self) -> (r: Self) {
        u64::from_le(*self)
    }
}

/// A little-endian representation of T.
///
/// Use `::from()` or `.into()` to convert between this and the native
/// representation of T.
#[derive(Copy, Clone, Debug)]
pub struct LittleEndian<T: SpecificEndian> {
    /// The raw little-endian representation of the value.
    v: T,
}

impl<T: SpecificEndian> LittleEndian<T> {
    /// The raw data stored in the struct.
    pub closed spec fn bits(&self) -> T {
        self.v
    }

    /// The value in the byte order of the machine.
    pub open spec fn native(&self) -> T {
        little_endian_form(self.bits())
    }

    /// Returns the raw data stored in the struct.
    pub fn to_bits(&self) -> (r: T)
        ensures
            r == self.bits(),
    {
        self.v
    }

    /// Imports the data raw into a LittleEndian<T> struct.
    pub fn from_bits(v: T) -> (r: Self)
        ensures
            r.bits() == v,
    {
        Self { v }
    }

    /// Converts the data to the same type T in host-native endian.
    pub fn to_native(&self) -> (r: T)
        ensures
            r == self.native(),
    {
        self.v.from_little_endian()
    }

}

/// The representation that `from` makes of a native value has that value.
pub proof fn lemma_from_native<T: SpecificEndian>(v: T)
    ensures
        <LittleEndian<T> as vstd::std_specs::convert::FromSpec<T>>::from_spec(v).native() == v,
        <LittleEndian<T> as vstd::std_specs::convert::FromSpec<T>>::from_spec(v).bits()
            == little_endian_form(v),
{
    v.lemma_swapped_twice();
}

impl<T: SpecificEndian> From<T> for LittleEndian<T> {
    /// The little-endian representation of a native value.
    fn from(v: T) -> (r: LittleEndian<T>) {
        LittleEndian { v: v.to_little_endian() }
    }
}

impl<T: SpecificEndian> vstd::std_specs::convert::FromSpecImpl<T> for LittleEndian<T> {
    open spec fn obeys_from_spec() -> bool {
        true
    }

    closed spec fn from_spec(v: T) -> Self {
        LittleEndian { v: little_endian_form(v) }
    }
}

impl From<LittleEndian<u16>> for u16 {
    /// The native value of a little-endian representation.
    fn from(v: LittleEndian<u16>) -> (r: u16) {
        v.v.from_little_endian()
    }
}

impl vstd::std_specs::convert::FromSpecImpl<LittleEndian<u16>> for u16 {
    open spec fn obeys_from_spec() -> bool {
        true
    }

    open spec fn from_spec(v: LittleEndian<u16>) -> Self {
        v.native()
    }
}

impl From<LittleEndian<u32>> for u32 {
    /// The native value of a little-endian representation.
    fn from(v: LittleEndian<u32>) -> (r: u32) {
        v.v.from_little_endian()
    }
}

impl vstd::std_specs::convert::FromSpecImpl<LittleEndian<u32>> for u32 {
    open spec fn obeys_from_spec() -> bool {
        true
    }

    open spec fn from_spec(v: LittleEndian<u32>) -> Self {
        v.native()
    }
}

impl From<LittleEndian<u64>> for u64 {
    /// The native value of a little-endian representation.
    fn from(v: LittleEndian<u64>) -> (r: u64) {
        v.v.from_little_endian()
    }
}

impl vstd::std_specs::convert::FromSpecImpl<LittleEndian<u64>> for u64 {
    open spec fn obeys_from_spec() -> bool {
        true
    }

    open spec fn from_spec(v: LittleEndian<u64>) -> Self {
        v.native()
    }
}

/// The little-endian representation of a native value has that value, on
/// every machine; and the representation with the raw data of another has
/// its value.
pub proof fn lemma_little_endian_round_trip<T: SpecificEndian>(v: T)
    ensures
        little_endian_form(little_endian_form(v)) == v,
        big_endian_form(big_endian_form(v)) == v,
{
    v.lemma_swapped_twice();
}

/// A 16-bit integer in little-endian order.
#[allow(non_camel_case_types)]
pub type u16le = LittleEndian<u16>;

/// A 32-bit integer in little-endian order.
#[allow(non_camel_case_types)]
pub type u32le = LittleEndian<u32>;

/// A 64-bit integer in little-endian order.
#[allow(non_camel_case_types)]
pub type u64le = LittleEndian<u64>;

} // verus!
