use rand::Rng;
use vstd::prelude::*;

verus! {

/// `rand::thread_rng().gen_range(0, 256)`: a number drawn from the thread's
/// generator, at least 0 and below 256. Which number is not known.
#[verifier::external_body]
pub(crate) fn random_below_256() -> (number: u16)
    ensures
        number < 256,
{
    rand::thread_rng().gen_range(0u16, 256u16)
}

} // verus!
