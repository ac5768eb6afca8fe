//! Small helpers shared by the counting utilities.

use vstd::prelude::*;

verus! {

/// Adds two sizes.
///
/// The sum has to fit in a `usize`; the result is then the exact sum.
pub fn add(left: usize, right: usize) -> (sum: usize)
    requires
        left + right <= usize::MAX,
    ensures
        sum == left + right,
{
    left + right
}

} // verus!
