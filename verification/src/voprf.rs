//! Verifiable Oblivious Pseudorandom Function (VOPRF) ciphersuite
//! parameters using prime order groups.

use vstd::prelude::*;

use crate::digest::FixedOutput;

verus! {

/// Elliptic curve parameters used by VOPRF.
///
/// A ciphersuite fixes an identifier for its elliptic curve and the hash
/// function used for `HashToGroup` and `HashToScalar`.
pub trait VoprfParameters {
    /// The `Hash` parameter which assigns a particular hash function to
    /// this ciphersuite.
    type Hash: FixedOutput;

    /// The `ID` parameter which identifies a particular elliptic curve
    /// ciphersuite.
    fn id() -> (r: &'static str);
}

} // verus!
