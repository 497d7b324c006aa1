use vstd::prelude::*;

verus! {

/// Relies on `rand::random_range` over an inclusive range: it draws from the
/// thread-local generator a value between both bounds, and panics only when
/// the range is empty.
#[verifier::external_body]
pub(crate) fn random_between(low: i32, high: i32) -> (r: i32)
    requires
        low <= high,
    ensures
        low <= r <= high,
{
    rand::random_range(low..=high)
}

} // verus!
