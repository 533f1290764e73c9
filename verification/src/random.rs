//! Fresh nonces, drawn through `rand`.

use vstd::prelude::*;

verus! {

/// `rand::random::<u64>`: some 64-bit number. Nothing is known of it: two
/// calls may give any two numbers.
#[verifier::external_body]
pub(crate) fn random_u64() -> (n: u64) {
    rand::random::<u64>()
}

} // verus!
