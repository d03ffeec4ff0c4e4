//! Conversion between the position domain and native indices.

use vstd::prelude::*;

verus! {

/// Calls `num::ToPrimitive::to_usize` on a `u64`.
///
/// Trusted: the result is the same number as a `usize` when it is at most
/// `usize::MAX`, and `None` otherwise.
#[verifier::external_body]
pub(crate) fn u64_to_usize(value: u64) -> (r: Option<usize>)
    ensures
        r == (if value <= usize::MAX {
            Some(value as usize)
        } else {
            None
        }),
{
    num::ToPrimitive::to_usize(&value)
}

} // verus!
