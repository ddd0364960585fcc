use rand::Rng;
use vstd::prelude::*;

verus! {

/// Declares rand's thread-local generator type so that values of it can
/// cross these signatures; Verus sees nothing inside it.
#[verifier::external_type_specification]
#[verifier::external_body]
pub struct ExThreadRng(rand::rngs::ThreadRng);

/// Relies on rand's Rng::gen_range: a uniform draw from `[lo, hi)`,
/// inclusive of `lo` and exclusive of `hi`.  It panics when `lo >= hi`,
/// which the precondition rules out.  Beyond the range, nothing is
/// promised of a random draw.
#[verifier::external_body]
pub(crate) fn rand_range(rng: &mut rand::rngs::ThreadRng, lo: u64, hi: u64) -> (r: u64)
    requires
        lo < hi,
    ensures
        lo <= r < hi,
{
    rng.gen_range(lo, hi)
}

} // verus!
