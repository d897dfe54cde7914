//! Compatibility shim: the older stateless in-place AEAD entry points.
//!
//! These are kept purely as a forwarding layer over [`crate::aead`] for
//! callers written against the earlier interface; new code should call
//! the [`crate::aead`] functions and the [`AeadInOut`] detached
//! operations directly.

use vstd::prelude::*;

use crate::aead::AeadInOut;
use crate::aead::Error;
use crate::aead::spec_decrypt_message;
use crate::aead::spec_decrypt_ok;
use crate::aead::spec_encrypt_message;
use crate::buffer::Buffer;

verus! {

/// Encrypt the given buffer containing a plaintext message in-place.
pub fn encrypt_in_place<A: AeadInOut, B: Buffer>(
    aead: &A,
    nonce: &[u8],
    associated_data: &[u8],
    buffer: &mut B,
) -> (r: Result<(), Error>)
    requires
        nonce@.len() == aead.spec_nonce_size(),
    ensures
        final(buffer).capacity() == old(buffer).capacity(),
        r is Ok <==> old(buffer).contents().len() + aead.spec_tag_size() <= old(
            buffer,
        ).capacity(),
        r is Ok ==> final(buffer).contents() == spec_encrypt_message(
            aead,
            nonce@,
            associated_data@,
            old(buffer).contents(),
        ),
        r is Err ==> final(buffer).contents() == old(buffer).contents(),
{
    crate::aead::encrypt_in_place(aead, nonce, associated_data, buffer)
}

/// Encrypt the data in-place, returning the authentication tag.
pub fn encrypt_in_place_detached<A: AeadInOut>(
    aead: &A,
    nonce: &[u8],
    associated_data: &[u8],
    buffer: &mut Vec<u8>,
) -> (tag: Vec<u8>)
    requires
        nonce@.len() == aead.spec_nonce_size(),
    ensures
        final(buffer)@ == aead.ct_of(nonce@, associated_data@, old(buffer)@),
        tag@ == aead.tag_of(nonce@, associated_data@, old(buffer)@),
{
    aead.encrypt_inout_detached(nonce, associated_data, buffer)
}

/// Decrypt the message in-place, returning an error in the event the
/// provided authentication tag does not match the given ciphertext.
pub fn decrypt_in_place<A: AeadInOut, B: Buffer>(
    aead: &A,
    nonce: &[u8],
    associated_data: &[u8],
    buffer: &mut B,
) -> (r: Result<(), Error>)
    requires
        nonce@.len() == aead.spec_nonce_size(),
    ensures
        final(buffer).capacity() == old(buffer).capacity(),
        r is Ok <==> spec_decrypt_ok(aead, nonce@, associated_data@, old(buffer).contents()),
        r is Ok ==> final(buffer).contents() == spec_decrypt_message(
            aead,
            nonce@,
            associated_data@,
            old(buffer).contents(),
        ),
        r is Err ==> final(buffer).contents() == old(buffer).contents(),
{
    crate::aead::decrypt_in_place(aead, nonce, associated_data, buffer)
}

/// Decrypt the message in-place, returning an error in the event the
/// provided authentication tag does not match the given ciphertext
/// (i.e. ciphertext is modified/unauthentic).
pub fn decrypt_in_place_detached<A: AeadInOut>(
    aead: &A,
    nonce: &[u8],
    associated_data: &[u8],
    buffer: &mut Vec<u8>,
    tag: &[u8],
) -> (r: Result<(), Error>)
    requires
        nonce@.len() == aead.spec_nonce_size(),
        tag@.len() == aead.spec_tag_size(),
    ensures
        r is Ok <==> aead.authentic(nonce@, associated_data@, old(buffer)@, tag@),
        r is Ok ==> final(buffer)@ == aead.pt_of(nonce@, associated_data@, old(buffer)@),
{
    aead.decrypt_inout_detached(nonce, associated_data, buffer, tag)
}

} // verus!
