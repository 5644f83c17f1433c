use rand::Rng;
use vstd::prelude::*;

verus! {

/// Relies on `rand::Rng::gen_range` over `rand::thread_rng`: it returns
/// one byte drawn from the full range. Nothing is promised of which
/// byte comes back; callers state what holds of every outcome.
#[verifier::external_body]
pub(crate) fn random_byte() -> u8 {
    rand::thread_rng().gen_range(0..=255u8)
}

} // verus!
