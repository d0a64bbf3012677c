use vstd::prelude::*;

verus! {

/// Relies on rand::Rng::gen_range on the thread-local generator: its
/// documentation promises a value drawn uniformly from the given
/// half-open range, and a panic only on an empty range, which the
/// precondition rules out. Nothing more is assumed of the draw.
#[verifier::external_body]
pub(crate) fn rand_range_u64(lo: u64, hi: u64) -> (r: u64)
    requires
        lo < hi,
    ensures
        lo <= r < hi,
{
    rand::Rng::gen_range(&mut rand::thread_rng(), lo..hi)
}

} // verus!
