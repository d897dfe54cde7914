//! Signature error type and traits for verifying digital signatures.

use vstd::prelude::*;
use vstd::string::StringExecFns;

use crate::digest::FixedOutput;

verus! {

/// Signature errors.
///
/// This type is deliberately opaque as to avoid sidechannel leakage which
/// could potentially be used to recover signing private keys or forge
/// signatures.
///
/// It supports an optional source description, which can be used by
/// things like remote signers (e.g. HSM, KMS) to report I/O or auth
/// errors.
#[derive(Debug)]
pub struct Error {
    source: Option<String>,
}

impl Error {
    /// The source description carried by this error, if any.
    pub closed spec fn spec_source(&self) -> Option<Seq<char>> {
        match self.source {
            Some(s) => Some(s@),
            None => None::<Seq<char>>,
        }
    }

    /// Create a new error with no associated source.
    pub fn new() -> (r: Self)
        ensures
            r.spec_source() is None,
    {
        Self::default()
    }

    /// Create a new error with an associated source.
    ///
    /// **NOTE:** The "source" should **not** be used to propagate
    /// cryptographic errors e.g. signature parsing or verification
    /// errors.  The intended use cases are for propagating errors related
    /// to external signers, e.g. communication/authentication errors with
    /// HSMs, KMS, etc.
    pub fn from_source(source: String) -> (r: Self)
        ensures
            r.spec_source() matches Some(s) && s == source@,
    {
        Error { source: Some(source) }
    }

    /// The fixed description this error displays, deliberately free of
    /// detail.
    pub fn message(&self) -> (r: String)
        ensures
            r@ == "signature error"@,
    {
        String::from_str("signature error")
    }

    /// The source of the error, if applicable.
    pub fn source(&self) -> (r: Option<&String>)
        ensures
            match r {
                Some(s) => self.spec_source() matches Some(v) && v == s@,
                None => self.spec_source() is None,
            },
    {
        match &self.source {
            Some(s) => Some(s),
            None => None,
        }
    }
}

impl Default for Error {
    /// An error with no associated source.
    fn default() -> (r: Self)
        ensures
            r.spec_source() is None,
    {
        Error { source: None }
    }
}

/// Verify the provided message bytestring using `Self` (e.g. a public
/// key).
pub trait Verifier<S> {
    /// Which message/signature pairs `Self` accepts.
    spec fn spec_verifies(&self, msg: Seq<u8>, signature: &S) -> bool;

    /// Use `Self` to verify that the provided signature for a given
    /// message bytestring is authentic.
    ///
    /// Returns an error if it is inauthentic, or otherwise returns `Ok`.
    fn verify(&self, msg: &[u8], signature: &S) -> (r: Result<(), Error>)
        ensures
            r is Ok <==> self.spec_verifies(msg@, signature),
    ;
}

/// Equivalent of [`Verifier`] but the message is provided in
/// non-contiguous byte slices.
pub trait MultipartVerifier<S> {
    /// Which message/signature pairs `Self` accepts, the message given
    /// as its parts.
    spec fn spec_multipart_verifies(&self, msg: Seq<Seq<u8>>, signature: &S) -> bool;

    /// Equivalent of [`Verifier::verify`] but the message is provided in
    /// non-contiguous byte slices.
    fn multipart_verify(&self, msg: &[&[u8]], signature: &S) -> (r: Result<(), Error>)
        ensures
            r is Ok <==> self.spec_multipart_verifies(msg.deep_view(), signature),
    ;
}

/// Verify the provided signature for the given prehashed message digest
/// is authentic.
///
/// This trait is primarily intended for signature algorithms based on
/// the Fiat-Shamir heuristic, whose security rests on the inability of
/// an attacker to solve for the output of the random oracle; to prevent
/// misuse, this API accepts a hasher instance rather than a raw digest
/// value.
pub trait DigestVerifier<D: FixedOutput, S> {
    /// Which digest/signature pairs `Self` accepts.
    spec fn spec_verifies_digest(&self, digest: Seq<u8>, signature: &S) -> bool;

    /// Verify the signature against the output of the given hasher.
    fn verify_digest(&self, digest: D, signature: &S) -> (r: Result<(), Error>)
        ensures
            r is Ok <==> self.spec_verifies_digest(
                D::spec_digest(digest.absorbed()),
                signature,
            ),
    ;
}

} // verus!
