//! The engine's one source of randomness.

use vstd::prelude::*;

use rand::Rng;

verus! {

/// Relies on `rand::Rng::gen::<bool>` on `rand::thread_rng()`: one draw of a
/// boolean from the process-wide random generator. Nothing is promised of
/// the result; callers must state what holds of either outcome.
#[verifier::external_body]
pub(crate) fn coin_flip() -> bool {
    rand::thread_rng().gen::<bool>()
}

} // verus!
