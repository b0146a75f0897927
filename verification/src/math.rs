//! Rounding to multiples of a power of two, and the granularity of access times.

use vstd::prelude::*;

verus! {

/// A point in time: seconds since the start of 1970, and nanoseconds.
#[derive(Clone, Copy, Debug, PartialEq, Eq, Structural)]
pub struct TimeSpec64 {
    pub tv_sec: i64,
    pub tv_nsec: i64,
}

/// True when `base` is a power of two.
pub open spec fn is_power_of_two(base: u64) -> bool {
    base != 0 && base & ((base - 1) as u64) == 0
}

/// True when `num` is a multiple of the power of two `base`: its bits
/// below that of `base` are zero.
pub open spec fn is_multiple_of(num: u64, base: u64) -> bool {
    num & ((base - 1) as u64) == 0
}

/// The largest multiple of the power of two `base` that is not above `num`.
pub open spec fn round_down(num: u64, base: u64) -> u64 {
    num & !((base - 1) as u64)
}

/// The smallest multiple of the power of two `base` that is not below `num`.
pub open spec fn round_up(num: u64, base: u64) -> u64 {
    round_down((num + base - 1) as u64, base)
}

/// Rounding down to a multiple of a power of two gives a multiple, less
/// than one `base` below the number.
pub proof fn lemma_round_down(num: u64, base: u64)
    by (bit_vector)
    requires
        base != 0 && base & ((base - 1) as u64) == 0,
    ensures
        (num & !((base - 1) as u64)) & ((base - 1) as u64) == 0,
        num & !((base - 1) as u64) <= num,
        num - (num & !((base - 1) as u64)) < base,
{
}

/// Rounds a number up to the next multiple of the given base, which must be
/// a power of two.
pub fn round_up_to_next_multiple(num: u64, base: u64) -> (r: u64)
    requires
        is_power_of_two(base),
        num + base - 1 <= u64::MAX,
    ensures
        r == round_up(num, base),
        is_multiple_of(r, base),
        num <= r < num + base,
{
    let top: u64 = num + (base - 1);
    proof {
        lemma_round_down(top, base);
    }
    top & !(base - 1)
}

/// Rounds a number down to the previous multiple of the given base, which
/// must be a power of two.
pub fn round_down_to_prev_multiple(num: u64, base: u64) -> (r: u64)
    requires
        is_power_of_two(base),
    ensures
        r == round_down(num, base),
        is_multiple_of(r, base),
        r <= num < r + base,
{
    proof {
        lemma_round_down(num, base);
    }
    num & !(base - 1)
}

proof fn lemma_clear_low_bit(x: i64)
    by (bit_vector)
    ensures
        x & !1i64 == x - (x & 1i64),
        x & 1i64 == 0 || x & 1i64 == 1,
        (x & 1i64 == 0) == (x % 2 == 0),
{
}

/// Truncates an access time to the two seconds that exFAT stores.
pub fn truncate_atime(ts: &mut TimeSpec64)
    ensures
        final(ts).tv_sec == old(ts).tv_sec - old(ts).tv_sec % 2,
        final(ts).tv_nsec == 0,
{
    proof {
        lemma_clear_low_bit(ts.tv_sec);
    }
    ts.tv_sec = ts.tv_sec & !1i64;
    ts.tv_nsec = 0;
}

} // verus!
