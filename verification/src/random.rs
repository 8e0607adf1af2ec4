//! Random bytes: a generator of the `rand` crate that the caller seeds and
//! hands to the machine, behind contracts that are taken on trust.

use rand::rngs::StdRng;
use rand::Rng;
use vstd::prelude::*;

verus! {

/// `rand::rngs::StdRng`, a generator that computes its output from its own
/// state alone: once seeded it asks nothing of the operating system.
/// Nothing is known of its state.
#[verifier::external_type_specification]
#[verifier::external_body]
pub struct ExStdRng(StdRng);

/// Calls `rand::Rng::gen_range` with the half-open range `low..high`. The
/// claim is the one `rand` documents: the sample lies in the range. The
/// call panics on an empty range, which `requires` leaves out.
#[verifier::external_body]
pub(crate) fn sample_range(rng: &mut StdRng, low: u8, high: u8) -> (sample: u8)
    requires
        low < high,
    ensures
        low <= sample < high,
{
    rng.gen_range(low..high)
}

} // verus!
