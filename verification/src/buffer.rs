//! In-place encryption/decryption byte buffers.
//!
//! The AEAD transform grows a plaintext into a ciphertext-with-tag, or
//! shrinks a ciphertext back into a plaintext, inside a single
//! caller-supplied container.  [`Buffer`] is the minimal contract such a
//! container must satisfy: report its length, append bytes (which may fail
//! for a fixed-capacity container), truncate, and read or write a single
//! byte in place.

use vstd::prelude::*;

use crate::aead::Error;

verus! {

/// Byte container supporting the in-place operations of the AEAD
/// transform.
///
/// A buffer models a byte sequence (`contents`) bounded by a fixed
/// `capacity`: appending bytes succeeds exactly when the new length stays
/// within the capacity, and no operation changes the capacity.  A
/// dynamically growable container reports the largest representable
/// capacity.
pub trait Buffer: Sized {
    /// The byte sequence currently held.
    spec fn contents(&self) -> Seq<u8>;

    /// The largest length this container can ever hold.
    spec fn capacity(&self) -> nat;

    /// Get the length of the buffer.
    fn len(&self) -> (r: usize)
        ensures
            r == self.contents().len(),
    ;

    /// Is the buffer empty?
    fn is_empty(&self) -> (r: bool)
        ensures
            r == (self.contents().len() == 0),
    {
        self.len() == 0
    }

    /// Extend this buffer from the given slice, failing with an opaque
    /// error if the container cannot accommodate the growth.
    fn extend_from_slice(&mut self, other: &[u8]) -> (r: Result<(), Error>)
        ensures
            final(self).capacity() == old(self).capacity(),
            r is Ok <==> old(self).contents().len() + other@.len() <= old(self).capacity(),
            r is Ok ==> final(self).contents() == old(self).contents() + other@,
            r is Err ==> final(self).contents() == old(self).contents(),
    ;

    /// Truncate this buffer to the given size; truncating to the current
    /// or a larger length is a no-op.
    fn truncate(&mut self, len: usize)
        ensures
            final(self).capacity() == old(self).capacity(),
            final(self).contents() == (if len <= old(self).contents().len() {
                old(self).contents().take(len as int)
            } else {
                old(self).contents()
            }),
    ;

    /// Read the byte at position `i`.
    fn get_byte(&self, i: usize) -> (r: u8)
        requires
            i < self.contents().len(),
        ensures
            r == self.contents()[i as int],
    ;

    /// Overwrite the byte at position `i`.
    fn set_byte(&mut self, i: usize, value: u8)
        requires
            i < old(self).contents().len(),
        ensures
            final(self).capacity() == old(self).capacity(),
            final(self).contents() == old(self).contents().update(i as int, value),
    ;
}

impl Buffer for Vec<u8> {
    open spec fn contents(&self) -> Seq<u8> {
        self@
    }

    open spec fn capacity(&self) -> nat {
        usize::MAX as nat
    }

    fn len(&self) -> (r: usize) {
        Vec::len(self)
    }

    fn extend_from_slice(&mut self, other: &[u8]) -> (r: Result<(), Error>) {
        Vec::extend_from_slice(self, other);
        let new_len: usize = Vec::len(self);
        proof {
            assert(self@ =~= old(self)@ + other@);
            assert(old(self)@.len() + other@.len() == new_len);
        }
        Ok(())
    }

    fn truncate(&mut self, len: usize) {
        Vec::truncate(self, len);
        proof {
            if len <= old(self)@.len() {
                assert(self@ =~= old(self)@.take(len as int));
            }
        }
    }

    fn get_byte(&self, i: usize) -> (r: u8) {
        self[i]
    }

    fn set_byte(&mut self, i: usize, value: u8) {
        self[i] = value;
    }
}

/// Fixed-capacity byte buffer: a vector that refuses to grow beyond the
/// capacity chosen at construction, as an array-backed container would.
#[derive(Debug)]
pub struct BoundedBuffer {
    data: Vec<u8>,
    cap: usize,
}

impl BoundedBuffer {
    /// An empty buffer that can hold at most `cap` bytes.
    pub fn new(cap: usize) -> (r: Self)
        ensures
            r.contents() == Seq::<u8>::empty(),
            r.capacity() == cap,
    {
        BoundedBuffer { data: Vec::new(), cap }
    }
}

impl Buffer for BoundedBuffer {
    closed spec fn contents(&self) -> Seq<u8> {
        self.data@
    }

    closed spec fn capacity(&self) -> nat {
        self.cap as nat
    }

    fn len(&self) -> (r: usize) {
        Vec::len(&self.data)
    }

    fn extend_from_slice(&mut self, other: &[u8]) -> (r: Result<(), Error>) {
        let grow: usize = other.len();
        if grow <= self.cap && Vec::len(&self.data) <= self.cap - grow {
            Vec::extend_from_slice(&mut self.data, other);
            proof {
                assert(self.data@ =~= old(self).data@ + other@);
            }
            Ok(())
        } else {
            Err(Error)
        }
    }

    fn truncate(&mut self, len: usize) {
        Vec::truncate(&mut self.data, len);
        proof {
            if len <= old(self).data@.len() {
                assert(self.data@ =~= old(self).data@.take(len as int));
            }
        }
    }

    fn get_byte(&self, i: usize) -> (r: u8) {
        self.data[i]
    }

    fn set_byte(&mut self, i: usize, value: u8) {
        self.data[i] = value;
    }
}

/// Declares `bytes::BytesMut` to the verifier so that it can implement
/// [`Buffer`]; the type stays opaque, its contents are tracked through
/// [`bytes_mut_contents`].
#[verifier::external_type_specification]
#[verifier::external_body]
pub struct ExBytesMut(bytes::BytesMut);

/// The byte sequence a `bytes::BytesMut` holds.
pub uninterp spec fn bytes_mut_contents(b: &bytes::BytesMut) -> Seq<u8>;

/// Relies on `bytes::BytesMut::len`: the number of bytes the buffer
/// holds.
#[verifier::external_body]
fn bytes_mut_len(b: &bytes::BytesMut) -> (r: usize)
    ensures
        r == bytes_mut_contents(b).len(),
{
    bytes::BytesMut::len(b)
}

/// Relies on `bytes::BytesMut::extend_from_slice`: appends the slice to
/// the buffer, growing it as needed; as with a vector, a returned call
/// implies the new length still fitted the address space.
#[verifier::external_body]
fn bytes_mut_extend(b: &mut bytes::BytesMut, other: &[u8])
    ensures
        bytes_mut_contents(final(b)) == bytes_mut_contents(old(b)) + other@,
        bytes_mut_contents(old(b)).len() + other@.len() <= usize::MAX,
{
    bytes::BytesMut::extend_from_slice(b, other);
}

/// Relies on `bytes::BytesMut::truncate`: keeps the first `len` bytes
/// and drops the rest, with no effect if `len` exceeds the current
/// length.
#[verifier::external_body]
fn bytes_mut_truncate(b: &mut bytes::BytesMut, len: usize)
    ensures
        bytes_mut_contents(final(b)) == (if len <= bytes_mut_contents(old(b)).len() {
            bytes_mut_contents(old(b)).take(len as int)
        } else {
            bytes_mut_contents(old(b))
        }),
{
    bytes::BytesMut::truncate(b, len);
}

/// Relies on the `Deref<Target = [u8]>` impl of `bytes::BytesMut`: reads
/// one held byte.
#[verifier::external_body]
fn bytes_mut_byte(b: &bytes::BytesMut, i: usize) -> (r: u8)
    requires
        i < bytes_mut_contents(b).len(),
    ensures
        r == bytes_mut_contents(b)[i as int],
{
    b[i]
}

/// Relies on the `DerefMut<Target = [u8]>` impl of `bytes::BytesMut`:
/// overwrites one held byte in place.
#[verifier::external_body]
fn bytes_mut_set_byte(b: &mut bytes::BytesMut, i: usize, value: u8)
    requires
        i < bytes_mut_contents(old(b)).len(),
    ensures
        bytes_mut_contents(final(b)) == bytes_mut_contents(old(b)).update(i as int, value),
{
    b[i] = value;
}

impl Buffer for bytes::BytesMut {
    open spec fn contents(&self) -> Seq<u8> {
        bytes_mut_contents(self)
    }

    open spec fn capacity(&self) -> nat {
        usize::MAX as nat
    }

    fn len(&self) -> (r: usize) {
        bytes_mut_len(self)
    }

    fn extend_from_slice(&mut self, other: &[u8]) -> (r: Result<(), Error>) {
        bytes_mut_extend(self, other);
        Ok(())
    }

    fn truncate(&mut self, len: usize) {
        bytes_mut_truncate(self, len);
    }

    fn get_byte(&self, i: usize) -> (r: u8) {
        bytes_mut_byte(self, i)
    }

    fn set_byte(&mut self, i: usize, value: u8) {
        bytes_mut_set_byte(self, i, value);
    }
}

/// A vector holding `len` zero bytes.
pub fn zero_bytes(len: usize) -> (r: Vec<u8>)
    ensures
        r@.len() == len,
        forall|i: int| 0 <= i < len ==> r@[i] == 0u8,
{
    let mut out: Vec<u8> = Vec::new();
    let mut i: usize = 0;
    while i < len
        invariant
            i <= len,
            out@.len() == i,
            forall|j: int| 0 <= j < i ==> out@[j] == 0u8,
        decreases len - i,
    {
        out.push(0u8);
        i = i + 1;
    }
    out
}

/// Copy of the bytes `[start, start + len)` of a buffer.
pub fn read_region<B: Buffer>(buffer: &B, start: usize, len: usize) -> (r: Vec<u8>)
    requires
        start + len <= buffer.contents().len(),
    ensures
        r@ == buffer.contents().subrange(start as int, start as int + len as int),
{
    let total: usize = buffer.len();
    let mut out: Vec<u8> = Vec::new();
    let mut i: usize = 0;
    while i < len
        invariant
            i <= len,
            total == buffer.contents().len(),
            start + len <= buffer.contents().len(),
            out@ == buffer.contents().subrange(start as int, start as int + i as int),
        decreases len - i,
    {
        let b: u8 = buffer.get_byte(start + i);
        out.push(b);
        proof {
            assert(out@ =~= buffer.contents().subrange(
                start as int,
                start as int + (i + 1) as int,
            ));
        }
        i = i + 1;
    }
    out
}

/// Overwrite the bytes `[start, start + data.len())` of a buffer with
/// `data`, leaving the rest in place.
pub fn write_region<B: Buffer>(buffer: &mut B, start: usize, data: &[u8])
    requires
        start + data@.len() <= old(buffer).contents().len(),
    ensures
        final(buffer).capacity() == old(buffer).capacity(),
        final(buffer).contents() == old(buffer).contents().take(start as int) + data@
            + old(buffer).contents().skip(start as int + data@.len() as int),
{
    let len: usize = data.len();
    let total: usize = buffer.len();
    let mut i: usize = 0;
    while i < len
        invariant
            i <= len,
            len == data@.len(),
            total == old(buffer).contents().len(),
            start + len <= old(buffer).contents().len(),
            buffer.capacity() == old(buffer).capacity(),
            buffer.contents() == old(buffer).contents().take(start as int) + data@.take(i as int)
                + old(buffer).contents().skip(start as int + i as int),
        decreases len - i,
    {
        let b: u8 = data[i];
        proof {
            assert(buffer.contents().len() == old(buffer).contents().len());
        }
        buffer.set_byte(start + i, b);
        proof {
            assert(buffer.contents() =~= old(buffer).contents().take(start as int)
                + data@.take((i + 1) as int) + old(buffer).contents().skip(
                start as int + (i + 1) as int,
            ));
        }
        i = i + 1;
    }
    proof {
        assert(data@.take(len as int) =~= data@);
    }
}

} // verus!
