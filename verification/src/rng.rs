use vstd::prelude::*;

verus! {

/// Relies on rand::random_range over `lo..hi`: the drawn value lies in the
/// half-open range. Nothing more is promised of a random draw.
#[verifier::external_body]
pub(crate) fn rand_in_range(lo: i16, hi: i16) -> (r: i16)
    requires
        lo < hi,
    ensures
        lo <= r < hi,
{
    rand::random_range(lo..hi)
}

} // verus!
