//! Folding over the results of a walk.

use vstd::prelude::*;
use crate::error::Result;

verus! {

/// What counting one more result gives: the first error, that of the item
/// before that of the count, and the count plus one where there is none.
pub open spec fn spec_count_oks<T>(bucket: Result<u32>, item: Result<T>) -> Result<u32> {
    match item {
        Err(e) => Err(e),
        Ok(_) => match bucket {
            Err(e) => Err(e),
            Ok(n) => Ok((n + 1) as u32),
        },
    }
}

/// Fold operator for counting the number of `Ok`s in a sequence of results.
pub fn count_oks<T>(bucket: Result<u32>, item: Result<T>) -> (r: Result<u32>)
    requires
        bucket matches Ok(n) ==> n < u32::MAX,
    ensures
        r == spec_count_oks(bucket, item),
{
    match item {
        Err(e) => Err(e),
        Ok(_) => match bucket {
            Err(e) => Err(e),
            Ok(n) => Ok(n + 1),
        },
    }
}

} // verus!
