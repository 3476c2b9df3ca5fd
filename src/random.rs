use vstd::prelude::*;

verus! {

/// Relies on rand::random: a boolean drawn from the thread-local generator.
/// Nothing is known of which one.
#[verifier::external_body]
pub(crate) fn random_bool() -> (r: bool) {
    rand::random::<bool>()
}

} // verus!
