//! Arithmetic on lengths.
use vstd::prelude::*;

verus! {

/// The product, held at `usize::MAX`.
pub(crate) fn saturating_product(a: usize, b: usize) -> (r: usize)
    ensures
        r == if a * b <= usize::MAX {
            a * b
        } else {
            usize::MAX as int
        },
{
    match a.checked_mul(b) {
        Some(product) => product,
        None => usize::MAX,
    }
}

} // verus!
