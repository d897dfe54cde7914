//! Development implementations of the capability traits.
//!
//! Tests and examples need concrete primitives to drive the verified
//! transforms.  The types here are small stand-ins — none of them is
//! cryptographically secure — but each satisfies its trait's contract in
//! full: every law is proved, so they double as evidence that the
//! contracts are satisfiable.

use vstd::prelude::*;

use crate::aead::AeadCore;
use crate::aead::AeadInOut;
use crate::aead::Error;
use crate::aead::TagPosition;
use crate::digest::Update;
use crate::digest::VariableOutput;

verus! {

/// One step of the rolling checksum: multiply by an odd constant and add
/// the next byte, modulo 256.
pub open spec fn spec_checksum_step(acc: u8, b: u8) -> u8 {
    acc.wrapping_mul(31).wrapping_add(b)
}

/// Rolling checksum of a byte sequence.  Because the multiplier is odd,
/// changing any single byte changes the result.
pub open spec fn spec_checksum(s: Seq<u8>) -> u8
    decreases s.len(),
{
    if s.len() == 0 {
        0u8
    } else {
        spec_checksum_step(spec_checksum(s.drop_last()), s.last())
    }
}

/// Rolling checksum of a byte slice.
pub fn checksum(data: &[u8]) -> (r: u8)
    ensures
        r == spec_checksum(data@),
{
    let n: usize = data.len();
    let mut acc: u8 = 0;
    let mut i: usize = 0;
    while i < n
        invariant
            i <= n,
            n == data@.len(),
            acc == spec_checksum(data@.take(i as int)),
        decreases n - i,
    {
        let b: u8 = data[i];
        acc = acc.wrapping_mul(31).wrapping_add(b);
        proof {
            assert(data@.take(i as int + 1).drop_last() =~= data@.take(i as int));
        }
        i = i + 1;
    }
    proof {
        assert(data@.take(n as int) =~= data@);
    }
    acc
}

/// The byte sequence XORed with a single key byte.
pub open spec fn spec_xor(key: u8, data: Seq<u8>) -> Seq<u8> {
    Seq::new(data.len(), |i: int| data[i] ^ key)
}

/// XORing with the same key twice restores the byte.
proof fn lemma_xor_involution(x: u8, k: u8)
    ensures
        (x ^ k) ^ k == x,
{
    assert((x ^ k) ^ k == x) by (bit_vector);
}

/// XOR every byte of the buffer with the key, in place.
fn xor_with_key(key: u8, buffer: &mut Vec<u8>)
    ensures
        final(buffer)@ == spec_xor(key, old(buffer)@),
{
    let n: usize = buffer.len();
    let mut i: usize = 0;
    while i < n
        invariant
            i <= n,
            buffer@.len() == n,
            old(buffer)@.len() == n,
            forall|j: int| 0 <= j < i ==> buffer@[j] == (old(buffer)@[j] ^ key),
            forall|j: int| i <= j < n ==> buffer@[j] == old(buffer)@[j],
        decreases n - i,
    {
        let b: u8 = buffer[i];
        buffer[i] = b ^ key;
        i = i + 1;
    }
    proof {
        assert(buffer@ =~= spec_xor(key, old(buffer)@));
    }
}

/// Whether two byte sequences are equal, computed without early exit by
/// accumulating a difference byte, as a constant-time tag comparison
/// would.
fn eq_bytes(a: &[u8], b: &[u8]) -> (r: bool)
    ensures
        r == (a@ == b@),
{
    let n: usize = a.len();
    if n != b.len() {
        proof {
            assert(a@ != b@);
        }
        return false;
    }
    let mut diff: u8 = 0;
    let mut i: usize = 0;
    while i < n
        invariant
            i <= n,
            n == a@.len(),
            n == b@.len(),
            (diff == 0) <==> (forall|j: int| 0 <= j < i ==> a@[j] == b@[j]),
        decreases n - i,
    {
        let x: u8 = a[i];
        let y: u8 = b[i];
        let d: u8 = x ^ y;
        proof {
            assert((d == 0) == (x == y)) by (bit_vector)
                requires
                    d == x ^ y,
            ;
            assert(((diff | d) == 0) == (diff == 0 && d == 0)) by (bit_vector);
        }
        diff = diff | d;
        i = i + 1;
    }
    if diff == 0 {
        proof {
            assert(a@ =~= b@);
        }
        true
    } else {
        false
    }
}

/// The tag of the development cipher: rolling checksums of the
/// ciphertext, the associated data and the nonce mixed with the key, and
/// the ciphertext length.
pub open spec fn spec_dev_mac(key: u8, nonce: Seq<u8>, aad: Seq<u8>, ct: Seq<u8>) -> Seq<u8> {
    seq![
        spec_checksum(ct),
        spec_checksum(aad),
        spec_checksum(nonce).wrapping_add(key),
        (ct.len() % 256) as u8,
    ]
}

/// Compute the development cipher's tag.
fn dev_mac(key: u8, nonce: &[u8], aad: &[u8], ct: &[u8]) -> (r: Vec<u8>)
    ensures
        r@ == spec_dev_mac(key, nonce@, aad@, ct@),
{
    let mut tag: Vec<u8> = Vec::new();
    tag.push(checksum(ct));
    tag.push(checksum(aad));
    tag.push(checksum(nonce).wrapping_add(key));
    tag.push(#[verifier::truncate] ((ct.len() % 256) as u8));
    proof {
        assert(tag@ =~= spec_dev_mac(key, nonce@, aad@, ct@));
    }
    tag
}

/// Development cipher: a keyed XOR stream with a rolling-checksum tag.
///
/// It is in no way secure, but it is a faithful detached AEAD primitive:
/// decryption undoes encryption, verification recomputes the unique tag
/// of a ciphertext, and every law of [`AeadInOut`] is proved for it.
#[derive(Clone, Copy, Debug)]
pub struct DevCipher {
    /// Key byte for the XOR stream and the tag.
    pub key: u8,
    /// Where the combined layout places the tag.
    pub position: TagPosition,
}

impl crate::aead::AeadCore for DevCipher {
    open spec fn spec_nonce_size(&self) -> usize {
        4
    }

    open spec fn spec_tag_size(&self) -> usize {
        4
    }

    open spec fn spec_tag_position(&self) -> TagPosition {
        self.position
    }

    fn nonce_size(&self) -> (r: usize) {
        4
    }

    fn tag_size(&self) -> (r: usize) {
        4
    }

    fn tag_position(&self) -> (r: TagPosition) {
        self.position
    }
}

impl AeadInOut for DevCipher {
    open spec fn ct_of(&self, nonce: Seq<u8>, aad: Seq<u8>, msg: Seq<u8>) -> Seq<u8> {
        spec_xor(self.key, msg)
    }

    open spec fn tag_of(&self, nonce: Seq<u8>, aad: Seq<u8>, msg: Seq<u8>) -> Seq<u8> {
        spec_dev_mac(self.key, nonce, aad, spec_xor(self.key, msg))
    }

    open spec fn pt_of(&self, nonce: Seq<u8>, aad: Seq<u8>, ct: Seq<u8>) -> Seq<u8> {
        spec_xor(self.key, ct)
    }

    open spec fn authentic(&self, nonce: Seq<u8>, aad: Seq<u8>, ct: Seq<u8>, tag: Seq<u8>) -> bool {
        tag == spec_dev_mac(self.key, nonce, aad, ct)
    }

    proof fn lemma_detached_laws(
        &self,
        nonce: Seq<u8>,
        aad: Seq<u8>,
        msg: Seq<u8>,
        ct: Seq<u8>,
        tag1: Seq<u8>,
        tag2: Seq<u8>,
    ) {
        assert(spec_xor(self.key, spec_xor(self.key, msg)) =~= msg) by {
            assert forall|i: int| 0 <= i < msg.len() implies spec_xor(
                self.key,
                spec_xor(self.key, msg),
            )[i] == msg[i] by {
                lemma_xor_involution(msg[i], self.key);
            }
        }
    }

    fn encrypt_inout_detached(
        &self,
        nonce: &[u8],
        associated_data: &[u8],
        buffer: &mut Vec<u8>,
    ) -> (tag: Vec<u8>) {
        xor_with_key(self.key, buffer);
        dev_mac(self.key, nonce, associated_data, buffer.as_slice())
    }

    fn decrypt_inout_detached(
        &self,
        nonce: &[u8],
        associated_data: &[u8],
        buffer: &mut Vec<u8>,
        tag: &[u8],
    ) -> (r: Result<(), Error>) {
        let expected = dev_mac(self.key, nonce, associated_data, buffer.as_slice());
        if !eq_bytes(expected.as_slice(), tag) {
            return Err(Error);
        }
        xor_with_key(self.key, buffer);
        Ok(())
    }
}

/// Changing any single byte of a sequence changes its rolling checksum:
/// the multiplier is odd, hence invertible modulo 256, so the
/// contribution of every position is injective.
proof fn lemma_checksum_byte_change(s: Seq<u8>, i: int, v: u8)
    requires
        0 <= i < s.len(),
        v != s[i],
    ensures
        spec_checksum(s.update(i, v)) != spec_checksum(s),
    decreases s.len(),
{
    let t = s.update(i, v);
    assert(t.len() == s.len());
    if i == s.len() - 1 {
        assert(t.drop_last() =~= s.drop_last());
        let c = spec_checksum(s.drop_last());
        let last = s.last();
        assert(t.last() == v);
        assert(v != last ==> c.wrapping_mul(31).wrapping_add(v) != c.wrapping_mul(31).wrapping_add(
            last,
        )) by (bit_vector);
    } else {
        assert(t.drop_last() =~= s.drop_last().update(i, v));
        assert(t.last() == s.last());
        lemma_checksum_byte_change(s.drop_last(), i, v);
        let c1 = spec_checksum(t.drop_last());
        let c2 = spec_checksum(s.drop_last());
        let last = s.last();
        assert(c1 != c2 ==> c1.wrapping_mul(31).wrapping_add(last) != c2.wrapping_mul(31)
            .wrapping_add(last)) by (bit_vector);
    }
}

/// Ciphertext tamper detection for the development cipher: changing any
/// single byte of the ciphertext region of a combined message, while
/// keeping the genuine tag, makes decryption reject it.  Together with
/// [`crate::aead::lemma_tag_tamper`] this covers a change anywhere in a
/// combined message.
pub proof fn lemma_dev_cipher_ct_tamper(
    cipher: DevCipher,
    nonce: Seq<u8>,
    aad: Seq<u8>,
    msg: Seq<u8>,
    i: int,
    v: u8,
)
    requires
        0 <= i < msg.len(),
        v != cipher.ct_of(nonce, aad, msg)[i],
    ensures
        !crate::aead::spec_decrypt_ok(
            &cipher,
            nonce,
            aad,
            crate::aead::spec_combined(
                cipher.spec_tag_position(),
                cipher.ct_of(nonce, aad, msg).update(i, v),
                cipher.tag_of(nonce, aad, msg),
            ),
        ),
{
    let ct = cipher.ct_of(nonce, aad, msg);
    let ct2 = ct.update(i, v);
    let tag = cipher.tag_of(nonce, aad, msg);
    lemma_checksum_byte_change(ct, i, v);
    let combined = crate::aead::spec_combined(cipher.spec_tag_position(), ct2, tag);
    assert(crate::aead::spec_ct_part(&cipher, combined) =~= ct2);
    assert(crate::aead::spec_tag_part(&cipher, combined) =~= tag);
    assert(spec_dev_mac(cipher.key, nonce, aad, ct2)[0] == spec_checksum(ct2));
    assert(tag[0] == spec_checksum(ct));
}

/// Field-element stand-in for the tests: the additive identity plus a
/// cyclic multiplicative group, an element written as the power of a
/// fixed generator and stored by its exponent.  Multiplication is
/// wrapping addition of exponents, so every law of [`FieldElement`]
/// holds for every representable value.
#[derive(Clone, Copy, Debug, PartialEq, Eq, Structural)]
pub enum DevScalar {
    /// The additive identity, the one non-invertible element.
    Zero,
    /// The power of the generator with the given exponent.
    Unit(u64),
}

impl crate::ops::FieldElement for DevScalar {
    open spec fn spec_mul(self, rhs: Self) -> Self {
        match (self, rhs) {
            (DevScalar::Unit(a), DevScalar::Unit(b)) => DevScalar::Unit(a.wrapping_add(b)),
            _ => DevScalar::Zero,
        }
    }

    open spec fn spec_one() -> Self {
        DevScalar::Unit(0)
    }

    open spec fn spec_inv(self) -> Self {
        match self {
            DevScalar::Unit(a) => DevScalar::Unit(0u64.wrapping_sub(a)),
            DevScalar::Zero => DevScalar::Zero,
        }
    }

    open spec fn is_invertible(self) -> bool {
        self is Unit
    }

    proof fn lemma_field_laws(a: Self, b: Self, c: Self) {
    }

    fn multiply(self, rhs: Self) -> (r: Self) {
        match (self, rhs) {
            (DevScalar::Unit(a), DevScalar::Unit(b)) => DevScalar::Unit(a.wrapping_add(b)),
            _ => DevScalar::Zero,
        }
    }

    fn invert(self) -> (r: (Self, bool)) {
        match self {
            DevScalar::Unit(a) => (DevScalar::Unit(0u64.wrapping_sub(a)), true),
            DevScalar::Zero => (DevScalar::Zero, false),
        }
    }

    fn conditional_select(a: &Self, b: &Self, choice: bool) -> (r: Self) {
        if choice {
            *b
        } else {
            *a
        }
    }

    fn default_value() -> (r: Self) {
        DevScalar::Zero
    }
}

/// Curve-point stand-in for the tests: the additive group of machine
/// integers, with wrapping scalar multiplication.
#[derive(Clone, Copy, Debug, PartialEq, Eq, Structural)]
pub struct DevPoint(pub u64);

impl crate::ops::LinearCombination for DevPoint {
    type Scalar = u64;

    open spec fn spec_scalar_mul(self, k: u64) -> Self {
        DevPoint(self.0.wrapping_mul(k))
    }

    open spec fn spec_add(self, rhs: Self) -> Self {
        DevPoint(self.0.wrapping_add(rhs.0))
    }

    open spec fn spec_identity() -> Self {
        DevPoint(0)
    }

    fn scalar_mul(self, k: u64) -> (r: Self) {
        DevPoint(self.0.wrapping_mul(k))
    }

    fn add_point(self, rhs: Self) -> (r: Self) {
        DevPoint(self.0.wrapping_add(rhs.0))
    }

    fn identity() -> (r: Self) {
        DevPoint(0)
    }
}

impl crate::ops::Reduce<u64> for DevScalar {
    type Bytes = [u8; 2];

    open spec fn spec_reduce(n: u64) -> Self {
        DevScalar::Unit(n)
    }

    open spec fn spec_reduce_bytes(bytes: [u8; 2]) -> Self {
        DevScalar::Unit((bytes@[0] + 256 * bytes@[1]) as u64)
    }

    fn reduce(n: u64) -> (r: Self) {
        DevScalar::Unit(n)
    }

    fn reduce_bytes(bytes: &[u8; 2]) -> (r: Self) {
        let lo: u64 = bytes[0] as u64;
        let hi: u64 = bytes[1] as u64;
        DevScalar::Unit(lo + 256 * hi)
    }
}

impl crate::ops::ReduceNonZero<u64> for DevScalar {
    open spec fn spec_is_zero(self) -> bool {
        self is Zero
    }

    open spec fn spec_reduce_nonzero(n: u64) -> Self {
        DevScalar::Unit(n)
    }

    open spec fn spec_reduce_nonzero_bytes(bytes: [u8; 2]) -> Self {
        DevScalar::Unit((bytes@[0] + 256 * bytes@[1]) as u64)
    }

    fn reduce_nonzero(n: u64) -> (r: Self) {
        DevScalar::Unit(n)
    }

    fn reduce_nonzero_bytes(bytes: &[u8; 2]) -> (r: Self) {
        let lo: u64 = bytes[0] as u64;
        let hi: u64 = bytes[1] as u64;
        DevScalar::Unit(lo + 256 * hi)
    }
}

/// The four digest bytes of [`DevHash`], derived from the rolling
/// checksum and the length of the absorbed stream.
pub open spec fn spec_dev_digest(data: Seq<u8>) -> Seq<u8> {
    seq![
        spec_checksum(data),
        (data.len() % 256) as u8,
        spec_checksum(data).wrapping_add((data.len() % 256) as u8),
        spec_checksum(data).wrapping_mul(31),
    ]
}

/// Development hasher with a four-byte fixed output; it keeps the
/// absorbed bytes and digests them through the rolling checksum.
#[derive(Clone, Debug)]
pub struct DevHash {
    data: Vec<u8>,
}

impl DevHash {
    /// A fresh hasher with nothing absorbed.
    pub fn new() -> (r: Self)
        ensures
            r.absorbed() == Seq::<u8>::empty(),
    {
        DevHash { data: Vec::new() }
    }
}

/// Write the four digest bytes of `data` into `out`.
fn dev_digest_into(data: &Vec<u8>, out: &mut Vec<u8>)
    requires
        old(out)@.len() == 4,
    ensures
        final(out)@ == spec_dev_digest(data@),
{
    let cs: u8 = checksum(data.as_slice());
    let len_byte: u8 = #[verifier::truncate] ((data.len() % 256) as u8);
    out[0] = cs;
    out[1] = len_byte;
    out[2] = cs.wrapping_add(len_byte);
    out[3] = cs.wrapping_mul(31);
    proof {
        assert(out@ =~= spec_dev_digest(data@));
    }
}

impl crate::digest::Update for DevHash {
    open spec fn spec_params(&self) -> Seq<int> {
        Seq::empty()
    }

    closed spec fn absorbed(&self) -> Seq<u8> {
        self.data@
    }

    fn update(&mut self, data: &[u8]) {
        Vec::extend_from_slice(&mut self.data, data);
        proof {
            assert(self.data@ =~= old(self).data@ + data@);
        }
    }
}

impl crate::digest::Reset for DevHash {
    fn reset(&mut self) {
        Vec::clear(&mut self.data);
    }
}

impl crate::digest::FixedOutput for DevHash {
    open spec fn spec_output_size() -> usize {
        4
    }

    open spec fn spec_digest(data: Seq<u8>) -> Seq<u8> {
        spec_dev_digest(data)
    }

    proof fn lemma_digest_len(data: Seq<u8>) {
    }

    fn output_size() -> (r: usize) {
        proof {
            assert(<DevHash as crate::digest::FixedOutput>::spec_output_size() == 4);
        }
        4
    }

    fn finalize_into(self, out: &mut Vec<u8>) {
        dev_digest_into(&self.data, out);
    }
}

impl crate::digest::FixedOutputReset for DevHash {
    fn finalize_into_reset(&mut self, out: &mut Vec<u8>) {
        dev_digest_into(&self.data, out);
        Vec::clear(&mut self.data);
    }
}

impl crate::digest::CollisionResistance for DevHash {
    open spec fn spec_collision_resistance() -> usize {
        2
    }

    fn collision_resistance() -> (r: usize) {
        2
    }
}

/// Reader serving the extendable output of [`DevXof`]: stream byte `i`
/// is the seed plus `i`, modulo 256.
pub struct DevXofReader {
    seed: u8,
    offset: u8,
    count: Ghost<nat>,
}

impl DevXofReader {
    #[verifier::type_invariant]
    spec fn wf(&self) -> bool {
        self.offset == ((self.seed + self.count@) % 256) as u8
    }
}

impl crate::digest::XofReader for DevXofReader {
    closed spec fn stream_byte(&self, i: int) -> u8 {
        ((self.seed + i) % 256) as u8
    }

    closed spec fn consumed(&self) -> nat {
        self.count@
    }

    fn read(&mut self, buffer: &mut Vec<u8>) {
        proof {
            use_type_invariant(&*self);
        }
        let n: usize = buffer.len();
        let mut j: usize = 0;
        while j < n
            invariant
                j <= n,
                n == buffer@.len(),
                n == old(buffer)@.len(),
                self == old(self),
                self.offset == ((self.seed + self.count@) % 256) as u8,
                forall|k: int|
                    0 <= k < j ==> buffer@[k] == old(self).stream_byte(
                        old(self).consumed() + k,
                    ),
            decreases n - j,
        {
            let low: u8 = #[verifier::truncate] ((j % 256) as u8);
            buffer[j] = self.offset.wrapping_add(low);
            proof {
                vstd::arithmetic::div_mod::lemma_add_mod_noop(
                    self.seed + self.count@,
                    j as int,
                    256,
                );
            }
            j = j + 1;
        }
        let low: u8 = #[verifier::truncate] ((n % 256) as u8);
        let new_offset: u8 = self.offset.wrapping_add(low);
        proof {
            vstd::arithmetic::div_mod::lemma_add_mod_noop(
                self.seed + self.count@,
                n as int,
                256,
            );
        }
        *self = DevXofReader {
            seed: self.seed,
            offset: new_offset,
            count: Ghost((self.count@ + n) as nat),
        };
    }
}

/// The extendable output stream of [`DevXof`]: the rolling checksum of
/// the absorbed bytes, counting upward from there, modulo 256.
pub open spec fn spec_dev_xof(data: Seq<u8>, i: int) -> u8 {
    ((spec_checksum(data) + i) % 256) as u8
}

/// Development hasher with extendable output, seeded by the rolling
/// checksum of the absorbed bytes.
#[derive(Clone, Debug)]
pub struct DevXof {
    data: Vec<u8>,
}

impl DevXof {
    /// A fresh hasher with nothing absorbed.
    pub fn new() -> (r: Self)
        ensures
            r.absorbed() == Seq::<u8>::empty(),
    {
        DevXof { data: Vec::new() }
    }
}

impl crate::digest::Update for DevXof {
    open spec fn spec_params(&self) -> Seq<int> {
        Seq::empty()
    }

    closed spec fn absorbed(&self) -> Seq<u8> {
        self.data@
    }

    fn update(&mut self, data: &[u8]) {
        Vec::extend_from_slice(&mut self.data, data);
        proof {
            assert(self.data@ =~= old(self).data@ + data@);
        }
    }
}

impl crate::digest::Reset for DevXof {
    fn reset(&mut self) {
        Vec::clear(&mut self.data);
    }
}

impl crate::digest::ExtendableOutput for DevXof {
    type Reader = DevXofReader;

    open spec fn spec_xof(data: Seq<u8>, i: int) -> u8 {
        spec_dev_xof(data, i)
    }

    fn finalize_xof(self) -> (r: DevXofReader) {
        let seed: u8 = checksum(self.data.as_slice());
        proof {
            vstd::arithmetic::div_mod::lemma_small_mod(seed as nat, 256);
        }
        DevXofReader { seed, offset: seed, count: Ghost(0) }
    }
}

impl crate::digest::ExtendableOutputReset for DevXof {
    fn finalize_xof_reset(&mut self) -> (r: DevXofReader) {
        let seed: u8 = checksum(self.data.as_slice());
        proof {
            vstd::arithmetic::div_mod::lemma_small_mod(seed as nat, 256);
        }
        Vec::clear(&mut self.data);
        DevXofReader { seed, offset: seed, count: Ghost(0) }
    }
}

/// The variable-length digest of [`DevVarHash`]: bytes counting up from
/// the rolling checksum of the absorbed stream, modulo 256.
pub open spec fn spec_dev_var_digest(data: Seq<u8>, output_size: usize) -> Seq<u8> {
    Seq::new(output_size as nat, |i: int| ((spec_checksum(data) + i) % 256) as u8)
}

/// Development hasher whose output size, from one to eight bytes, is
/// selected at construction.
#[derive(Clone, Debug)]
pub struct DevVarHash {
    data: Vec<u8>,
    output_size: usize,
}

impl crate::digest::Update for DevVarHash {
    closed spec fn spec_params(&self) -> Seq<int> {
        seq![self.output_size as int]
    }

    closed spec fn absorbed(&self) -> Seq<u8> {
        self.data@
    }

    fn update(&mut self, data: &[u8]) {
        Vec::extend_from_slice(&mut self.data, data);
        proof {
            assert(self.data@ =~= old(self).data@ + data@);
        }
    }
}

impl crate::digest::Reset for DevVarHash {
    fn reset(&mut self) {
        Vec::clear(&mut self.data);
    }
}

/// Write `(cs + i) % 256` into every position `i` of `out`.
fn dev_var_digest_into(cs: u8, out: &mut Vec<u8>)
    ensures
        final(out)@.len() == old(out)@.len(),
        forall|i: int| 0 <= i < final(out)@.len() ==> final(out)@[i] == ((cs + i) % 256) as u8,
{
    let n: usize = Vec::len(out);
    let mut i: usize = 0;
    while i < n
        invariant
            i <= n,
            out@.len() == n,
            old(out)@.len() == n,
            forall|k: int| 0 <= k < i ==> out@[k] == ((cs + k) % 256) as u8,
        decreases n - i,
    {
        let low: u8 = #[verifier::truncate] ((i % 256) as u8);
        out[i] = cs.wrapping_add(low);
        proof {
            vstd::arithmetic::div_mod::lemma_add_mod_noop(cs as int, i as int, 256);
            vstd::arithmetic::div_mod::lemma_small_mod(cs as nat, 256);
        }
        i = i + 1;
    }
}

impl crate::digest::VariableOutput for DevVarHash {
    open spec fn spec_max_output_size() -> usize {
        8
    }

    open spec fn spec_valid_output_size(output_size: usize) -> bool {
        1 <= output_size <= 8
    }

    open spec fn spec_digest_of(data: Seq<u8>, output_size: usize) -> Seq<u8> {
        spec_dev_var_digest(data, output_size)
    }

    closed spec fn spec_output_size(&self) -> usize {
        self.output_size
    }

    proof fn lemma_variable_digest(data: Seq<u8>, output_size: usize) {
    }

    proof fn lemma_output_size_of_params(a: Self, b: Self) {
        assert(a.spec_params()[0] == a.output_size as int);
        assert(b.spec_params()[0] == b.output_size as int);
        assert(a.spec_params()[0] == b.spec_params()[0]);
        assert(a.spec_output_size() == a.output_size);
        assert(b.spec_output_size() == b.output_size);
    }

    fn max_output_size() -> (r: usize) {
        proof {
            assert(<DevVarHash as crate::digest::VariableOutput>::spec_max_output_size() == 8);
        }
        8
    }

    fn new(output_size: usize) -> (r: Result<Self, crate::digest::InvalidOutputSize>) {
        proof {
            assert(<DevVarHash as crate::digest::VariableOutput>::spec_valid_output_size(
                output_size,
            ) == (1 <= output_size <= 8));
        }
        if 1 <= output_size && output_size <= 8 {
            let fresh = DevVarHash { data: Vec::new(), output_size };
            proof {
                assert(fresh.spec_output_size() == output_size);
                assert(fresh.absorbed() =~= Seq::<u8>::empty());
            }
            Ok(fresh)
        } else {
            Err(crate::digest::InvalidOutputSize)
        }
    }

    fn output_size(&self) -> (r: usize) {
        self.output_size
    }

    fn finalize_variable(self, out: &mut Vec<u8>) -> (r: Result<
        (),
        crate::digest::InvalidBufferSize,
    >) {
        proof {
            assert(self.spec_output_size() == self.output_size);
            assert(<DevVarHash as crate::digest::VariableOutput>::spec_digest_of(
                self.data@,
                self.output_size,
            ) == spec_dev_var_digest(self.data@, self.output_size));
        }
        if Vec::len(out) != self.output_size {
            return Err(crate::digest::InvalidBufferSize);
        }
        let cs: u8 = checksum(self.data.as_slice());
        dev_var_digest_into(cs, out);
        proof {
            assert(out@ =~= spec_dev_var_digest(self.data@, self.output_size));
        }
        Ok(())
    }
}

impl crate::digest::VariableOutputReset for DevVarHash {
    fn finalize_variable_reset(&mut self, out: &mut Vec<u8>) -> (r: Result<
        (),
        crate::digest::InvalidBufferSize,
    >) {
        proof {
            assert(self.spec_output_size() == self.output_size);
            assert(<DevVarHash as crate::digest::VariableOutput>::spec_digest_of(
                self.data@,
                self.output_size,
            ) == spec_dev_var_digest(self.data@, self.output_size));
        }
        if Vec::len(out) != self.output_size {
            return Err(crate::digest::InvalidBufferSize);
        }
        let cs: u8 = checksum(self.data.as_slice());
        dev_var_digest_into(cs, out);
        proof {
            assert(out@ =~= spec_dev_var_digest(old(self).data@, old(self).output_size));
        }
        Vec::clear(&mut self.data);
        Ok(())
    }
}

/// Development hasher construction that records a customization string
/// for domain separation, together with an output size.
#[derive(Clone, Debug)]
pub struct DevCustomHash {
    customization: Vec<u8>,
    output_size: usize,
}

impl DevCustomHash {
    /// The recorded customization string.
    pub fn customization(&self) -> (r: &Vec<u8>)
        ensures
            r@ == crate::digest::CustomizedInit::spec_customization(self),
    {
        &self.customization
    }

    /// The recorded output size.
    pub fn output_size(&self) -> (r: usize)
        ensures
            r == crate::digest::VarOutputCustomized::spec_customized_output_size(self),
    {
        self.output_size
    }
}

impl crate::digest::CustomizedInit for DevCustomHash {
    closed spec fn spec_customization(&self) -> Seq<u8> {
        self.customization@
    }

    fn new_customized(customization: &[u8]) -> (r: Self) {
        let mut recorded: Vec<u8> = Vec::new();
        Vec::extend_from_slice(&mut recorded, customization);
        proof {
            assert(recorded@ =~= customization@);
        }
        DevCustomHash { customization: recorded, output_size: 4 }
    }
}

impl crate::digest::VarOutputCustomized for DevCustomHash {
    closed spec fn spec_customization(&self) -> Seq<u8> {
        self.customization@
    }

    closed spec fn spec_customized_output_size(&self) -> usize {
        self.output_size
    }

    fn new_customized(customization: &[u8], output_size: usize) -> (r: Self) {
        let mut recorded: Vec<u8> = Vec::new();
        Vec::extend_from_slice(&mut recorded, customization);
        proof {
            assert(recorded@ =~= customization@);
        }
        DevCustomHash { customization: recorded, output_size }
    }
}

/// The concatenation of a sequence of byte sequences.
pub open spec fn spec_concat(parts: Seq<Seq<u8>>) -> Seq<u8>
    decreases parts.len(),
{
    if parts.len() == 0 {
        Seq::<u8>::empty()
    } else {
        spec_concat(parts.drop_last()) + parts.last()
    }
}

/// Development verification key for a checksum "signature" scheme: the
/// signature of a message is its rolling checksum plus the key byte.
#[derive(Clone, Copy, Debug)]
pub struct DevKey {
    /// Key byte added to the checksum.
    pub key: u8,
}

impl crate::signature::Verifier<u8> for DevKey {
    open spec fn spec_verifies(&self, msg: Seq<u8>, signature: &u8) -> bool {
        *signature == spec_checksum(msg).wrapping_add(self.key)
    }

    fn verify(&self, msg: &[u8], signature: &u8) -> (r: Result<(), crate::signature::Error>) {
        let expected: u8 = checksum(msg).wrapping_add(self.key);
        if expected == *signature {
            Ok(())
        } else {
            Err(crate::signature::Error::new())
        }
    }
}

impl crate::signature::MultipartVerifier<u8> for DevKey {
    open spec fn spec_multipart_verifies(&self, msg: Seq<Seq<u8>>, signature: &u8) -> bool {
        *signature == spec_checksum(spec_concat(msg)).wrapping_add(self.key)
    }

    fn multipart_verify(&self, msg: &[&[u8]], signature: &u8) -> (r: Result<
        (),
        crate::signature::Error,
    >) {
        let mut whole: Vec<u8> = Vec::new();
        let n: usize = msg.len();
        let mut i: usize = 0;
        while i < n
            invariant
                i <= n,
                n == msg@.len(),
                whole@ == spec_concat(msg.deep_view().take(i as int)),
            decreases n - i,
        {
            let part: &[u8] = msg[i];
            Vec::extend_from_slice(&mut whole, part);
            proof {
                assert(msg.deep_view().take(i as int + 1).drop_last() =~= msg.deep_view().take(
                    i as int,
                ));
                assert(msg.deep_view()[i as int] =~= part@);
                assert(whole@ =~= spec_concat(msg.deep_view().take(i as int + 1)));
            }
            i = i + 1;
        }
        proof {
            assert(msg.deep_view().take(n as int) =~= msg.deep_view());
        }
        let expected: u8 = checksum(whole.as_slice()).wrapping_add(self.key);
        if expected == *signature {
            Ok(())
        } else {
            Err(crate::signature::Error::new())
        }
    }
}

impl crate::signature::DigestVerifier<DevHash, u8> for DevKey {
    open spec fn spec_verifies_digest(&self, digest: Seq<u8>, signature: &u8) -> bool {
        digest.len() == 4 && *signature == digest[0].wrapping_add(self.key)
    }

    fn verify_digest(&self, digest: DevHash, signature: &u8) -> (r: Result<
        (),
        crate::signature::Error,
    >) {
        proof {
            <DevHash as crate::digest::FixedOutput>::lemma_digest_len(digest.absorbed());
        }
        let out = crate::digest::FixedOutput::finalize_fixed(digest);
        let expected: u8 = out[0].wrapping_add(self.key);
        if expected == *signature {
            Ok(())
        } else {
            Err(crate::signature::Error::new())
        }
    }
}

/// Development VOPRF ciphersuite: the development hasher under a toy
/// identifier.
pub struct DevSuite;

impl crate::voprf::VoprfParameters for DevSuite {
    type Hash = DevHash;

    fn id() -> (r: &'static str) {
        "dev-suite"
    }
}

} // verus!
