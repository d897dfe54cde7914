//! In-place transform for Authenticated Encryption with Associated Data
//! (AEAD).
//!
//! An AEAD algorithm supplies a *detached* primitive: it turns a message
//! into a ciphertext of the same length plus a separate authentication tag,
//! and verifies such a tag on decryption.  This module composes that
//! primitive with a tag-placement policy ([`TagPosition`]) and an in-place
//! byte buffer ([`crate::buffer::Buffer`]) to provide whole-message
//! encryption and decryption.

use vstd::prelude::*;

use vstd::string::StringExecFns;

use crate::buffer::Buffer;
use crate::buffer::read_region;
use crate::buffer::write_region;
use crate::buffer::zero_bytes;

verus! {

/// Error type.
///
/// This type is deliberately opaque as to avoid potential side-channel
/// leakage (e.g. padding oracle): capacity failures and authentication
/// failures are indistinguishable to a caller.
#[derive(Clone, Copy, Debug, Eq, Hash, PartialEq, Structural)]
pub struct Error;

impl Error {
    /// The fixed description this error displays, deliberately free of
    /// detail.
    pub fn message(&self) -> (r: String)
        ensures
            r@ == "aead::Error"@,
    {
        String::from_str("aead::Error")
    }
}

/// Enum which specifies tag position used by an AEAD algorithm.
#[derive(Debug, Clone, Copy, Eq, PartialEq, Structural)]
pub enum TagPosition {
    /// Postfix tag: the combined message is `ciphertext ++ tag`.
    Postfix,
    /// Prefix tag: the combined message is `tag ++ ciphertext`.
    Prefix,
}

/// AEAD payloads (message + AAD).
///
/// Combination of a message (plaintext or ciphertext) and "additional
/// associated data" (AAD) to be authenticated (in cleartext) along with the
/// message.
#[derive(Debug)]
pub struct Payload<'msg, 'aad> {
    /// Message to be encrypted/decrypted.
    pub msg: &'msg [u8],

    /// Optional "additional associated data" to authenticate along with
    /// this message.  If AAD is provided at the time the message is
    /// encrypted, the same AAD *must* be provided at the time the message
    /// is decrypted, or decryption will fail.
    pub aad: &'aad [u8],
}

/// Fixed parameters of an Authenticated Encryption with Associated Data
/// (AEAD) algorithm: its nonce length, its tag length, and where the tag
/// is placed in a combined message.
pub trait AeadCore {
    /// Length in bytes of a nonce.
    spec fn spec_nonce_size(&self) -> usize;

    /// Length in bytes of an authentication tag.
    spec fn spec_tag_size(&self) -> usize;

    /// Where the tag is placed in a combined ciphertext-and-tag message.
    spec fn spec_tag_position(&self) -> TagPosition;

    /// The length of a nonce.
    fn nonce_size(&self) -> (r: usize)
        ensures
            r == self.spec_nonce_size(),
    ;

    /// The length of an authentication tag.
    fn tag_size(&self) -> (r: usize)
        ensures
            r == self.spec_tag_size(),
    ;

    /// The AEAD tag position.
    fn tag_position(&self) -> (r: TagPosition)
        ensures
            r == self.spec_tag_position(),
    ;
}

/// Detached Authenticated Encryption with Associated Data (AEAD)
/// primitive.
///
/// A concrete cipher implements the two detached operations and describes
/// their behaviour through the spec functions `ct_of`, `tag_of`, `pt_of`
/// and `authentic`; [`AeadInOut::lemma_detached_laws`] obliges every
/// implementation to prove the algebra that the in-place transform relies
/// on (detached decryption undoes detached encryption, ciphertext keeps
/// the message length, one ciphertext admits at most one valid tag).
pub trait AeadInOut: AeadCore {
    /// The ciphertext this primitive produces for a message under a nonce
    /// and associated data.
    spec fn ct_of(&self, nonce: Seq<u8>, aad: Seq<u8>, msg: Seq<u8>) -> Seq<u8>;

    /// The authentication tag this primitive produces for a message under
    /// a nonce and associated data.
    spec fn tag_of(&self, nonce: Seq<u8>, aad: Seq<u8>, msg: Seq<u8>) -> Seq<u8>;

    /// The plaintext this primitive recovers from a ciphertext under a
    /// nonce and associated data.
    spec fn pt_of(&self, nonce: Seq<u8>, aad: Seq<u8>, ct: Seq<u8>) -> Seq<u8>;

    /// Whether a ciphertext/tag pair passes verification under a nonce and
    /// associated data.
    spec fn authentic(&self, nonce: Seq<u8>, aad: Seq<u8>, ct: Seq<u8>, tag: Seq<u8>) -> bool;

    /// The algebra of a genuine detached AEAD primitive: tags are
    /// non-empty and of the fixed tag length, encryption and decryption
    /// preserve lengths, a genuine ciphertext/tag pair verifies and
    /// decrypts back to its message, and a given ciphertext admits at most
    /// one valid tag.
    proof fn lemma_detached_laws(
        &self,
        nonce: Seq<u8>,
        aad: Seq<u8>,
        msg: Seq<u8>,
        ct: Seq<u8>,
        tag1: Seq<u8>,
        tag2: Seq<u8>,
    )
        ensures
            self.spec_tag_size() > 0,
            self.ct_of(nonce, aad, msg).len() == msg.len(),
            self.tag_of(nonce, aad, msg).len() == self.spec_tag_size(),
            self.pt_of(nonce, aad, ct).len() == ct.len(),
            self.authentic(nonce, aad, self.ct_of(nonce, aad, msg), self.tag_of(nonce, aad, msg)),
            self.pt_of(nonce, aad, self.ct_of(nonce, aad, msg)) == msg,
            self.authentic(nonce, aad, ct, tag1) && self.authentic(nonce, aad, ct, tag2)
                ==> tag1 == tag2,
    ;

    /// Encrypt the message in `buffer` in place into its ciphertext,
    /// returning the detached authentication tag.
    fn encrypt_inout_detached(
        &self,
        nonce: &[u8],
        associated_data: &[u8],
        buffer: &mut Vec<u8>,
    ) -> (tag: Vec<u8>)
        requires
            nonce@.len() == self.spec_nonce_size(),
        ensures
            final(buffer)@ == self.ct_of(nonce@, associated_data@, old(buffer)@),
            tag@ == self.tag_of(nonce@, associated_data@, old(buffer)@),
    ;

    /// Verify `tag` against the ciphertext in `buffer`, decrypting the
    /// buffer in place on success; returns an error exactly when the pair
    /// does not verify, in which event the buffer's final contents are
    /// unspecified.
    fn decrypt_inout_detached(
        &self,
        nonce: &[u8],
        associated_data: &[u8],
        buffer: &mut Vec<u8>,
        tag: &[u8],
    ) -> (r: Result<(), Error>)
        requires
            nonce@.len() == self.spec_nonce_size(),
            tag@.len() == self.spec_tag_size(),
        ensures
            r is Ok <==> self.authentic(nonce@, associated_data@, old(buffer)@, tag@),
            r is Ok ==> final(buffer)@ == self.pt_of(nonce@, associated_data@, old(buffer)@),
    ;
}

/// Combined ciphertext-and-tag byte layout for a tag position: the tag
/// follows the ciphertext for a postfix algorithm and precedes it for a
/// prefix algorithm.
pub open spec fn spec_combined(pos: TagPosition, ct: Seq<u8>, tag: Seq<u8>) -> Seq<u8> {
    match pos {
        TagPosition::Postfix => ct + tag,
        TagPosition::Prefix => tag + ct,
    }
}

/// The combined message that whole-buffer encryption produces for a
/// plaintext.
pub open spec fn spec_encrypt_message<A: AeadInOut + ?Sized>(
    aead: &A,
    nonce: Seq<u8>,
    aad: Seq<u8>,
    msg: Seq<u8>,
) -> Seq<u8> {
    spec_combined(
        aead.spec_tag_position(),
        aead.ct_of(nonce, aad, msg),
        aead.tag_of(nonce, aad, msg),
    )
}

/// The ciphertext region of a combined message.
pub open spec fn spec_ct_part<A: AeadInOut + ?Sized>(aead: &A, combined: Seq<u8>) -> Seq<u8>
    recommends
        combined.len() >= aead.spec_tag_size(),
{
    match aead.spec_tag_position() {
        TagPosition::Postfix => combined.take(combined.len() - aead.spec_tag_size()),
        TagPosition::Prefix => combined.skip(aead.spec_tag_size() as int),
    }
}

/// The tag region of a combined message.
pub open spec fn spec_tag_part<A: AeadInOut + ?Sized>(aead: &A, combined: Seq<u8>) -> Seq<u8>
    recommends
        combined.len() >= aead.spec_tag_size(),
{
    match aead.spec_tag_position() {
        TagPosition::Postfix => combined.skip(combined.len() - aead.spec_tag_size()),
        TagPosition::Prefix => combined.take(aead.spec_tag_size() as int),
    }
}

/// Whether whole-buffer decryption accepts a combined message: it is long
/// enough to contain a tag and its ciphertext/tag regions verify.
pub open spec fn spec_decrypt_ok<A: AeadInOut + ?Sized>(
    aead: &A,
    nonce: Seq<u8>,
    aad: Seq<u8>,
    combined: Seq<u8>,
) -> bool {
    &&& combined.len() >= aead.spec_tag_size()
    &&& aead.authentic(nonce, aad, spec_ct_part(aead, combined), spec_tag_part(aead, combined))
}

/// The plaintext that whole-buffer decryption recovers from a combined
/// message.
pub open spec fn spec_decrypt_message<A: AeadInOut + ?Sized>(
    aead: &A,
    nonce: Seq<u8>,
    aad: Seq<u8>,
    combined: Seq<u8>,
) -> Seq<u8> {
    aead.pt_of(nonce, aad, spec_ct_part(aead, combined))
}

/// Encrypt the plaintext held in `buffer` in place into the combined
/// ciphertext-and-tag message.
///
/// Succeeds exactly when the buffer can grow by the tag length, in which
/// event the buffer afterwards holds the ciphertext with the tag appended
/// (postfix algorithms) or prepended (prefix algorithms); on failure the
/// buffer is unchanged.
pub fn encrypt_in_place<A: AeadInOut, B: Buffer>(
    aead: &A,
    nonce: &[u8],
    associated_data: &[u8],
    buffer: &mut B,
) -> (r: Result<(), Error>)
    requires
        nonce@.len() == aead.spec_nonce_size(),
    ensures
        final(buffer).capacity() == old(buffer).capacity(),
        r is Ok <==> old(buffer).contents().len() + aead.spec_tag_size() <= old(
            buffer,
        ).capacity(),
        r is Ok ==> final(buffer).contents() == spec_encrypt_message(
            aead,
            nonce@,
            associated_data@,
            old(buffer).contents(),
        ),
        r is Err ==> final(buffer).contents() == old(buffer).contents(),
{
    let ghost entry = old(buffer).contents();
    let tag_size: usize = aead.tag_size();
    let msg_len: usize = buffer.len();
    let zeros = zero_bytes(tag_size);
    match buffer.extend_from_slice(zeros.as_slice()) {
        Ok(()) => {}
        Err(e) => {
            return Err(e);
        }
    }
    let mut msg = read_region(buffer, 0, msg_len);
    proof {
        assert(msg@ =~= entry);
    }
    let tag = aead.encrypt_inout_detached(nonce, associated_data, &mut msg);
    proof {
        aead.lemma_detached_laws(
            nonce@,
            associated_data@,
            entry,
            Seq::<u8>::empty(),
            Seq::<u8>::empty(),
            Seq::<u8>::empty(),
        );
    }
    match aead.tag_position() {
        TagPosition::Postfix => {
            write_region(buffer, 0, msg.as_slice());
            write_region(buffer, msg_len, tag.as_slice());
        }
        TagPosition::Prefix => {
            write_region(buffer, tag_size, msg.as_slice());
            write_region(buffer, 0, tag.as_slice());
        }
    }
    proof {
        assert(buffer.contents() =~= spec_encrypt_message(aead, nonce@, associated_data@, entry));
    }
    Ok(())
}

/// Decrypt the combined ciphertext-and-tag message held in `buffer` in
/// place, returning an error if the buffer is shorter than a tag or if
/// the tag does not verify.
///
/// The two failure causes are deliberately indistinguishable in the
/// returned error.  On success the buffer is truncated to the recovered
/// plaintext; on failure it is unchanged.
pub fn decrypt_in_place<A: AeadInOut, B: Buffer>(
    aead: &A,
    nonce: &[u8],
    associated_data: &[u8],
    buffer: &mut B,
) -> (r: Result<(), Error>)
    requires
        nonce@.len() == aead.spec_nonce_size(),
    ensures
        final(buffer).capacity() == old(buffer).capacity(),
        r is Ok <==> spec_decrypt_ok(aead, nonce@, associated_data@, old(buffer).contents()),
        r is Ok ==> final(buffer).contents() == spec_decrypt_message(
            aead,
            nonce@,
            associated_data@,
            old(buffer).contents(),
        ),
        r is Err ==> final(buffer).contents() == old(buffer).contents(),
{
    let ghost entry = old(buffer).contents();
    let tag_size: usize = aead.tag_size();
    let buf_len: usize = buffer.len();
    proof {
        aead.lemma_detached_laws(
            nonce@,
            associated_data@,
            Seq::<u8>::empty(),
            spec_ct_part(aead, entry),
            Seq::<u8>::empty(),
            Seq::<u8>::empty(),
        );
    }
    if buf_len < tag_size {
        return Err(Error);
    }
    let tagless_len: usize = buf_len - tag_size;
    let r = match aead.tag_position() {
        TagPosition::Postfix => {
            let mut msg = read_region(buffer, 0, tagless_len);
            let tag = read_region(buffer, tagless_len, tag_size);
            proof {
                assert(msg@ =~= spec_ct_part(aead, entry));
                assert(tag@ =~= spec_tag_part(aead, entry));
            }
            match aead.decrypt_inout_detached(nonce, associated_data, &mut msg, tag.as_slice()) {
                Ok(()) => {
                    write_region(buffer, 0, msg.as_slice());
                    Ok(())
                }
                Err(e) => Err(e),
            }
        }
        TagPosition::Prefix => {
            let tag = read_region(buffer, 0, tag_size);
            let mut msg = read_region(buffer, tag_size, tagless_len);
            proof {
                assert(msg@ =~= spec_ct_part(aead, entry));
                assert(tag@ =~= spec_tag_part(aead, entry));
            }
            match aead.decrypt_inout_detached(nonce, associated_data, &mut msg, tag.as_slice()) {
                Ok(()) => {
                    write_region(buffer, 0, msg.as_slice());
                    Ok(())
                }
                Err(e) => Err(e),
            }
        }
    };
    match r {
        Ok(()) => {
            buffer.truncate(tagless_len);
            proof {
                assert(buffer.contents() =~= spec_decrypt_message(
                    aead,
                    nonce@,
                    associated_data@,
                    entry,
                ));
            }
            Ok(())
        }
        Err(e) => Err(e),
    }
}

/// Authenticated Encryption with Associated Data (AEAD) algorithm, as
/// whole-message operations on owned byte vectors.
///
/// Every detached primitive provides these through a blanket
/// implementation over [`AeadInOut`].
pub trait Aead: AeadInOut {
    /// Encrypt the given plaintext payload, and return the resulting
    /// combined ciphertext-and-tag message as a vector of bytes.
    ///
    /// The associated data of the payload is authenticated along with
    /// the message but not encrypted; the same associated data must be
    /// supplied when decrypting, or decryption will fail, which is
    /// useful to "bind" the ciphertext to some other identifier.
    fn encrypt(&self, nonce: &[u8], plaintext: Payload<'_, '_>) -> (r: Result<Vec<u8>, Error>)
        requires
            nonce@.len() == self.spec_nonce_size(),
        ensures
            r is Ok <==> plaintext.msg@.len() + self.spec_tag_size() <= usize::MAX,
            r matches Ok(v) ==> v@ == spec_encrypt_message(
                self,
                nonce@,
                plaintext.aad@,
                plaintext.msg@,
            ),
    ;

    /// Decrypt the given combined ciphertext-and-tag payload, and return
    /// the recovered plaintext as a vector of bytes.
    ///
    /// Fails with an opaque error if the message is shorter than a tag
    /// or if the tag does not verify under the given nonce and
    /// associated data.
    fn decrypt(&self, nonce: &[u8], ciphertext: Payload<'_, '_>) -> (r: Result<Vec<u8>, Error>)
        requires
            nonce@.len() == self.spec_nonce_size(),
        ensures
            r is Ok <==> spec_decrypt_ok(self, nonce@, ciphertext.aad@, ciphertext.msg@),
            r matches Ok(v) ==> v@ == spec_decrypt_message(
                self,
                nonce@,
                ciphertext.aad@,
                ciphertext.msg@,
            ),
    ;
}

impl<T: AeadInOut> Aead for T {
    fn encrypt(&self, nonce: &[u8], plaintext: Payload<'_, '_>) -> (r: Result<Vec<u8>, Error>) {
        let msg_len: usize = plaintext.msg.len();
        let mut buffer: Vec<u8> = Vec::new();
        match Buffer::extend_from_slice(&mut buffer, plaintext.msg) {
            Ok(()) => {}
            Err(e) => {
                return Err(e);
            }
        }
        match encrypt_in_place(self, nonce, plaintext.aad, &mut buffer) {
            Ok(()) => Ok(buffer),
            Err(e) => Err(e),
        }
    }

    fn decrypt(&self, nonce: &[u8], ciphertext: Payload<'_, '_>) -> (r: Result<Vec<u8>, Error>) {
        let msg_len: usize = ciphertext.msg.len();
        let mut buffer: Vec<u8> = Vec::new();
        match Buffer::extend_from_slice(&mut buffer, ciphertext.msg) {
            Ok(()) => {}
            Err(e) => {
                return Err(e);
            }
        }
        match decrypt_in_place(self, nonce, ciphertext.aad, &mut buffer) {
            Ok(()) => Ok(buffer),
            Err(e) => Err(e),
        }
    }
}

/// Round trip: decrypting the combined message that encryption produced
/// for a plaintext, under the same nonce and associated data, succeeds
/// and recovers exactly that plaintext.
pub proof fn lemma_round_trip<A: AeadInOut>(aead: &A, nonce: Seq<u8>, aad: Seq<u8>, msg: Seq<u8>)
    ensures
        spec_decrypt_ok(aead, nonce, aad, spec_encrypt_message(aead, nonce, aad, msg)),
        spec_decrypt_message(aead, nonce, aad, spec_encrypt_message(aead, nonce, aad, msg))
            == msg,
{
    aead.lemma_detached_laws(
        nonce,
        aad,
        msg,
        Seq::<u8>::empty(),
        Seq::<u8>::empty(),
        Seq::<u8>::empty(),
    );
    let combined = spec_encrypt_message(aead, nonce, aad, msg);
    let ct = aead.ct_of(nonce, aad, msg);
    let tag = aead.tag_of(nonce, aad, msg);
    assert(spec_ct_part(aead, combined) =~= ct);
    assert(spec_tag_part(aead, combined) =~= tag);
}

/// Tag tamper detection: replacing the tag region of a combined message
/// with any other tag of the right length makes decryption reject it,
/// because a given ciphertext admits at most one valid tag.
pub proof fn lemma_tag_tamper<A: AeadInOut>(
    aead: &A,
    nonce: Seq<u8>,
    aad: Seq<u8>,
    msg: Seq<u8>,
    forged_tag: Seq<u8>,
)
    requires
        forged_tag.len() == aead.spec_tag_size(),
        forged_tag != aead.tag_of(nonce, aad, msg),
    ensures
        !spec_decrypt_ok(
            aead,
            nonce,
            aad,
            spec_combined(aead.spec_tag_position(), aead.ct_of(nonce, aad, msg), forged_tag),
        ),
{
    let ct = aead.ct_of(nonce, aad, msg);
    let tag = aead.tag_of(nonce, aad, msg);
    aead.lemma_detached_laws(nonce, aad, msg, ct, tag, forged_tag);
    let combined = spec_combined(aead.spec_tag_position(), ct, forged_tag);
    assert(spec_ct_part(aead, combined) =~= ct);
    assert(spec_tag_part(aead, combined) =~= forged_tag);
}

impl<'msg> Payload<'msg, '_> {
    /// Payload with the given message and no associated data.
    pub fn from_msg(msg: &'msg [u8]) -> (r: Self)
        ensures
            r.msg@ == msg@,
            r.aad@ == Seq::<u8>::empty(),
    {
        let empty: &'static [u8] = &[];
        Payload { msg, aad: empty }
    }
}

/// Generate a random nonce of `nonce_size` bytes for an AEAD algorithm
/// using the specified cryptographic generator.
///
/// A nonce must be unique every time encryption is performed and never
/// repeated for the same key; random generation is one strategy to that
/// end, provided the nonce is long enough that collisions stay unlikely.
///
/// Relies on `rand_core::RngCore::fill_bytes` to fill the slice with
/// bytes from the generator; nothing beyond the length of the result is
/// assumed of it.
#[verifier::external_body]
pub fn generate_nonce_with_rng<R: rand_core::CryptoRng + ?Sized>(
    rng: &mut R,
    nonce_size: usize,
) -> (r: Vec<u8>)
    ensures
        r@.len() == nonce_size,
{
    let mut nonce = vec![0u8; nonce_size];
    rng.fill_bytes(&mut nonce);
    nonce
}

/// Generate a random nonce of `nonce_size` bytes using the specified
/// fallible cryptographic generator, reporting its failure as the opaque
/// error.
///
/// Relies on `rand_core::TryRngCore::try_fill_bytes` to fill the slice
/// entirely with bytes from the generator when it returns success;
/// nothing beyond the length of a successful result is assumed of it.
#[verifier::external_body]
pub fn try_generate_nonce_with_rng<R: rand_core::TryCryptoRng + ?Sized>(
    rng: &mut R,
    nonce_size: usize,
) -> (r: Result<Vec<u8>, Error>)
    ensures
        r matches Ok(v) ==> v@.len() == nonce_size,
{
    let mut nonce = vec![0u8; nonce_size];
    match rng.try_fill_bytes(&mut nonce) {
        Ok(()) => Ok(nonce),
        Err(_) => Err(Error),
    }
}

} // verus!
