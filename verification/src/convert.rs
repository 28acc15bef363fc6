//! Integer conversion.

use vstd::prelude::*;

verus! {

/// `num_traits::ToPrimitive::to_usize` on an `i32`.
///
/// Trusted: the conversion yields the same number as a `usize` when the
/// argument is not negative, and nothing when it is. A `usize` here is at
/// least 32 bits wide, so no `i32` is too large for it.
#[verifier::external_body]
pub(crate) fn to_usize(n: i32) -> (converted: Option<usize>)
    ensures
        converted == (if n >= 0 {
            Some(n as usize)
        } else {
            None
        }),
{
    num_traits::ToPrimitive::to_usize(&n)
}

} // verus!
