use vstd::prelude::*;

verus! {

/// Relies on rand::Rng::gen_range over rand::thread_rng: a draw from
/// a thread-local generator, uniform over `lo..hi`; nothing is
/// promised of the value beyond its range. The half-open range must
/// be nonempty, as gen_range panics otherwise.
#[verifier::external_body]
pub(crate) fn sample_units(lo: i64, hi: i64) -> (r: i64)
    requires
        lo < hi,
    ensures
        lo <= r < hi,
{
    rand::Rng::gen_range(&mut rand::thread_rng(), lo..hi)
}

/// Relies on rand::seq::SliceRandom::shuffle: it permutes the slice
/// in place, so the elements as a multiset are unchanged.
#[verifier::external_body]
pub(crate) fn shuffle_pixels(v: &mut Vec<(u32, u32)>)
    ensures
        final(v)@.to_multiset() == old(v)@.to_multiset(),
{
    rand::seq::SliceRandom::shuffle(v.as_mut_slice(), &mut rand::thread_rng())
}

} // verus!
