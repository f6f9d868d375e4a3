//! The random source that mutations draw from.

use rand::rngs::ThreadRng;
use rand::Rng;
use vstd::prelude::*;

verus! {

/// `rand::rngs::ThreadRng`, the thread-local generator. Nothing is known of
/// its state: a value of it is only handed on to `random_in`.
#[verifier::external_type_specification]
#[verifier::external_body]
pub struct ExThreadRng(ThreadRng);

/// Calls `Rng::gen_range` of `rand` with the half-open range `low..high`.
/// The claim is the one of its documentation: the value lies in the range.
/// An empty range makes `gen_range` panic, so it is left out.
///
/// One panic no precondition can leave out: the generator takes a new seed
/// from the operating system now and then, and panics if the system fails
/// to give one. Like running out of memory, that depends on the machine
/// and not on what is handed in.
#[verifier::external_body]
pub(crate) fn random_in(rng: &mut ThreadRng, low: usize, high: usize) -> (drawn: usize)
    requires
        low < high,
    ensures
        low <= drawn < high,
{
    rng.gen_range(low..high)
}

} // verus!
