//! Traits which describe functionality of cryptographic hash functions
//! and message authentication algorithms.
//!
//! A hasher is modelled by the byte stream it has absorbed; every digest
//! trait fixes, through spec functions, how the final output is
//! determined by that stream, and the executable operations are bound to
//! those functions.  Fixed-size, variable-size and extendable-output
//! (XOF) families are described separately.

use vstd::prelude::*;
use vstd::string::StringExecFns;

use crate::buffer::zero_bytes;

verus! {

/// The error type used in variable hash traits: the requested output
/// size is not supported by the hasher.
#[derive(Clone, Copy, Debug, Default, Eq, PartialEq, Structural)]
pub struct InvalidOutputSize;

impl InvalidOutputSize {
    /// The fixed description this error displays.
    pub fn message(&self) -> (r: String)
        ensures
            r@ == "invalid output size"@,
    {
        String::from_str("invalid output size")
    }
}

/// Buffer length is not equal to hash output size.
#[derive(Default, Debug, Copy, Clone, Eq, PartialEq, Structural)]
pub struct InvalidBufferSize;

impl InvalidBufferSize {
    /// The fixed description this error displays.
    pub fn message(&self) -> (r: String)
        ensures
            r@ == "invalid buffer length"@,
    {
        String::from_str("invalid buffer length")
    }
}

/// Types which consume data with byte granularity.
pub trait Update: Sized {
    /// Ghost description of the instance's fixed configuration: whatever
    /// it carries besides the absorbed stream (a selected output size, a
    /// customization string), encoded as an integer sequence of the
    /// implementation's choosing.  Absorbing data never changes it.
    spec fn spec_params(&self) -> Seq<int>;

    /// The byte stream absorbed so far.
    spec fn absorbed(&self) -> Seq<u8>;

    /// Update state using the provided data.
    fn update(&mut self, data: &[u8])
        ensures
            final(self).absorbed() == old(self).absorbed() + data@,
            final(self).spec_params() == old(self).spec_params(),
    ;

    /// Digest input data in a chained manner.
    fn chain(self, data: &[u8]) -> (r: Self)
        ensures
            r.absorbed() == self.absorbed() + data@,
            r.spec_params() == self.spec_params(),
    {
        let mut hasher = self;
        hasher.update(data);
        hasher
    }
}

/// Types which can reset themselves to their initial state, with nothing
/// absorbed and their configuration kept.
pub trait Reset: Update {
    /// Reset state to its initial form.
    fn reset(&mut self)
        ensures
            final(self).absorbed() == Seq::<u8>::empty(),
            final(self).spec_params() == old(self).spec_params(),
    ;
}

/// Trait for hash functions with fixed-size output.
pub trait FixedOutput: Update {
    /// The fixed output size in bytes.
    spec fn spec_output_size() -> usize;

    /// The digest determined by an absorbed byte stream.
    spec fn spec_digest(data: Seq<u8>) -> Seq<u8>;

    /// Every digest has the fixed output length.
    proof fn lemma_digest_len(data: Seq<u8>)
        ensures
            Self::spec_digest(data).len() == Self::spec_output_size(),
    ;

    /// Get the output size in bytes.
    fn output_size() -> (r: usize)
        ensures
            r == Self::spec_output_size(),
    ;

    /// Consume value and write result into the provided buffer, whose
    /// length must equal the output size.
    fn finalize_into(self, out: &mut Vec<u8>)
        requires
            old(out)@.len() == Self::spec_output_size(),
        ensures
            final(out)@ == Self::spec_digest(self.absorbed()),
    ;

    /// Retrieve result and consume the hasher instance.
    fn finalize_fixed(self) -> (r: Vec<u8>)
        ensures
            r@ == Self::spec_digest(self.absorbed()),
    {
        let mut out = zero_bytes(Self::output_size());
        self.finalize_into(&mut out);
        out
    }
}

/// Trait for hash functions with fixed-size output able to reset
/// themselves.
pub trait FixedOutputReset: FixedOutput + Reset {
    /// Write result into the provided buffer and reset the hasher state.
    fn finalize_into_reset(&mut self, out: &mut Vec<u8>)
        requires
            old(out)@.len() == Self::spec_output_size(),
        ensures
            final(out)@ == Self::spec_digest(old(self).absorbed()),
            final(self).absorbed() == Seq::<u8>::empty(),
    ;

    /// Retrieve result and reset the hasher state.
    fn finalize_fixed_reset(&mut self) -> (r: Vec<u8>)
        ensures
            r@ == Self::spec_digest(old(self).absorbed()),
            final(self).absorbed() == Seq::<u8>::empty(),
    {
        let mut out = zero_bytes(Self::output_size());
        self.finalize_into_reset(&mut out);
        out
    }
}

/// Trait for reader types which are used to extract extendable output
/// from a XOF (extendable-output function) result.
pub trait XofReader {
    /// The conceptually unbounded output stream this reader serves.
    spec fn stream_byte(&self, i: int) -> u8;

    /// How many bytes of the stream have been read so far.
    spec fn consumed(&self) -> nat;

    /// Read output into `buffer`, filling it entirely with the next
    /// bytes of the stream.  Can be called an unlimited number of times.
    fn read(&mut self, buffer: &mut Vec<u8>)
        ensures
            final(buffer)@.len() == old(buffer)@.len(),
            forall|j: int|
                0 <= j < final(buffer)@.len() ==> final(buffer)@[j] == old(self).stream_byte(
                    old(self).consumed() + j,
                ),
            final(self).consumed() == old(self).consumed() + old(buffer)@.len(),
            forall|i: int| final(self).stream_byte(i) == old(self).stream_byte(i),
    ;

    /// Read the next `n` bytes of the stream into a fresh vector.
    ///
    /// Can be called an unlimited number of times in combination with
    /// `read`.
    fn read_boxed(&mut self, n: usize) -> (r: Vec<u8>)
        ensures
            r@.len() == n,
            forall|j: int|
                0 <= j < n ==> r@[j] == old(self).stream_byte(old(self).consumed() + j),
            final(self).consumed() == old(self).consumed() + n,
            forall|i: int| final(self).stream_byte(i) == old(self).stream_byte(i),
    {
        let mut buf = zero_bytes(n);
        self.read(&mut buf);
        buf
    }
}

/// Trait for hash functions with extendable-output (XOF).
pub trait ExtendableOutput: Update {
    /// Reader.
    type Reader: XofReader;

    /// The extendable output stream determined by an absorbed byte
    /// stream.
    spec fn spec_xof(data: Seq<u8>, i: int) -> u8;

    /// Retrieve XOF reader and consume hasher instance.
    fn finalize_xof(self) -> (r: Self::Reader)
        ensures
            r.consumed() == 0,
            forall|i: int| r.stream_byte(i) == Self::spec_xof(self.absorbed(), i),
    ;

    /// Finalize XOF and write result into `out`, filling it entirely.
    fn finalize_xof_into(self, out: &mut Vec<u8>)
        ensures
            final(out)@.len() == old(out)@.len(),
            forall|j: int|
                0 <= j < final(out)@.len() ==> final(out)@[j] == Self::spec_xof(
                    self.absorbed(),
                    j,
                ),
    {
        let mut reader = self.finalize_xof();
        reader.read(out);
    }

    /// Retrieve result into a vector of the specified size and consume
    /// the hasher.
    fn finalize_boxed(self, output_size: usize) -> (r: Vec<u8>)
        ensures
            r@.len() == output_size,
            forall|j: int| 0 <= j < output_size ==> r@[j] == Self::spec_xof(self.absorbed(), j),
    {
        let mut reader = self.finalize_xof();
        reader.read_boxed(output_size)
    }
}

/// Trait for hash functions with extendable-output (XOF) able to reset
/// themselves.
pub trait ExtendableOutputReset: ExtendableOutput + Reset {
    /// Retrieve XOF reader and reset hasher instance state.
    fn finalize_xof_reset(&mut self) -> (r: Self::Reader)
        ensures
            r.consumed() == 0,
            forall|i: int| r.stream_byte(i) == Self::spec_xof(old(self).absorbed(), i),
            final(self).absorbed() == Seq::<u8>::empty(),
    ;

    /// Finalize XOF, write result into `out`, and reset the hasher
    /// state.
    fn finalize_xof_reset_into(&mut self, out: &mut Vec<u8>)
        ensures
            final(out)@.len() == old(out)@.len(),
            forall|j: int|
                0 <= j < final(out)@.len() ==> final(out)@[j] == Self::spec_xof(
                    old(self).absorbed(),
                    j,
                ),
            final(self).absorbed() == Seq::<u8>::empty(),
    {
        let mut reader = self.finalize_xof_reset();
        reader.read(out);
    }

    /// Retrieve result into a vector of the specified size and reset the
    /// hasher state.
    fn finalize_boxed_reset(&mut self, output_size: usize) -> (r: Vec<u8>)
        ensures
            r@.len() == output_size,
            forall|j: int|
                0 <= j < output_size ==> r@[j] == Self::spec_xof(old(self).absorbed(), j),
            final(self).absorbed() == Seq::<u8>::empty(),
    {
        let mut reader = self.finalize_xof_reset();
        reader.read_boxed(output_size)
    }
}

/// Trait for hash functions with variable-size output, selected once at
/// construction.
pub trait VariableOutput: Update {
    /// Maximum size of output hash in bytes.
    spec fn spec_max_output_size() -> usize;

    /// Which output sizes [`VariableOutput::new`] accepts.
    spec fn spec_valid_output_size(output_size: usize) -> bool;

    /// The digest determined by an absorbed byte stream at a given
    /// output size.
    spec fn spec_digest_of(data: Seq<u8>, output_size: usize) -> Seq<u8>;

    /// The output size fixed for this hasher instance at construction.
    spec fn spec_output_size(&self) -> usize;

    /// Accepted output sizes are positive, stay within the maximum, and
    /// yield digests of the requested length.
    proof fn lemma_variable_digest(data: Seq<u8>, output_size: usize)
        ensures
            Self::spec_valid_output_size(output_size) ==> 0 < output_size
                <= Self::spec_max_output_size(),
            Self::spec_valid_output_size(output_size) ==> Self::spec_digest_of(
                data,
                output_size,
            ).len() == output_size,
    ;

    /// The configured output size is part of the instance's fixed
    /// configuration, so absorbing data keeps it.
    proof fn lemma_output_size_of_params(a: Self, b: Self)
        requires
            a.spec_params() == b.spec_params(),
        ensures
            a.spec_output_size() == b.spec_output_size(),
    ;

    /// Maximum size of output hash in bytes.
    fn max_output_size() -> (r: usize)
        ensures
            r == Self::spec_max_output_size(),
    ;

    /// Create new hasher instance with the given output size in bytes.
    ///
    /// It will return `Err(InvalidOutputSize)` in case if hasher can not
    /// return hash of the specified output size.
    fn new(output_size: usize) -> (r: Result<Self, InvalidOutputSize>)
        ensures
            r is Ok <==> Self::spec_valid_output_size(output_size),
            r matches Ok(h) ==> h.spec_output_size() == output_size && h.absorbed() == Seq::<
                u8,
            >::empty(),
    ;

    /// Get output size in bytes of the hasher instance provided to the
    /// `new` method.
    fn output_size(&self) -> (r: usize)
        ensures
            r == self.spec_output_size(),
    ;

    /// Write result into the output buffer.
    ///
    /// Returns an error if `out` size is not equal to
    /// `self.output_size()`, leaving the buffer unchanged.
    fn finalize_variable(self, out: &mut Vec<u8>) -> (r: Result<(), InvalidBufferSize>)
        ensures
            r is Ok <==> old(out)@.len() == self.spec_output_size(),
            r is Ok ==> final(out)@ == Self::spec_digest_of(
                self.absorbed(),
                self.spec_output_size(),
            ),
            r is Err ==> final(out)@ == old(out)@,
    ;

    /// Compute hash of `input` and write it to `output`.
    ///
    /// Length of the output hash is determined by `output`; if the
    /// hasher does not support that output size, this method returns
    /// `Err(InvalidOutputSize)` and leaves `output` unchanged.
    fn digest_variable(input: &[u8], output: &mut Vec<u8>) -> (r: Result<(), InvalidOutputSize>)
        ensures
            r is Ok <==> Self::spec_valid_output_size(old(output)@.len() as usize),
            r is Ok ==> final(output)@ == Self::spec_digest_of(input@, old(output)@.len() as usize),
            r is Err ==> final(output)@ == old(output)@,
    {
        let n: usize = output.len();
        match Self::new(n) {
            Ok(fresh) => {
                let ghost fresh_state = fresh;
                let mut hasher = fresh;
                hasher.update(input);
                proof {
                    Self::lemma_output_size_of_params(fresh_state, hasher);
                    assert(hasher.absorbed() =~= input@);
                }
                match hasher.finalize_variable(output) {
                    Ok(()) => Ok(()),
                    Err(_) => Err(InvalidOutputSize),
                }
            },
            Err(e) => Err(e),
        }
    }

    /// Retrieve result into a vector and consume hasher.
    fn finalize_boxed(self) -> (r: Vec<u8>)
        ensures
            r@ == Self::spec_digest_of(self.absorbed(), self.spec_output_size()),
    {
        let n: usize = self.output_size();
        let mut buf = zero_bytes(n);
        match self.finalize_variable(&mut buf) {
            Ok(()) => {},
            Err(_) => {},
        }
        buf
    }
}

/// Trait for hash functions with variable-size output able to reset
/// themselves.
pub trait VariableOutputReset: VariableOutput + Reset {
    /// Write result into the output buffer and reset the hasher state.
    ///
    /// Returns an error if `out` size is not equal to
    /// `self.output_size()`, leaving the buffer unchanged.
    fn finalize_variable_reset(&mut self, out: &mut Vec<u8>) -> (r: Result<
        (),
        InvalidBufferSize,
    >)
        ensures
            r is Ok <==> old(out)@.len() == old(self).spec_output_size(),
            r is Ok ==> final(out)@ == Self::spec_digest_of(
                old(self).absorbed(),
                old(self).spec_output_size(),
            ),
            r is Err ==> final(out)@ == old(out)@,
            r is Ok ==> final(self).absorbed() == Seq::<u8>::empty(),
            r is Err ==> final(self).absorbed() == old(self).absorbed(),
            final(self).spec_output_size() == old(self).spec_output_size(),
    ;

    /// Retrieve result into a vector and reset the hasher state.
    fn finalize_boxed_reset(&mut self) -> (r: Vec<u8>)
        ensures
            r@ == Self::spec_digest_of(old(self).absorbed(), old(self).spec_output_size()),
            final(self).absorbed() == Seq::<u8>::empty(),
            final(self).spec_output_size() == old(self).spec_output_size(),
    {
        let n: usize = self.output_size();
        let mut buf = zero_bytes(n);
        match self.finalize_variable_reset(&mut buf) {
            Ok(()) => {},
            Err(_) => {},
        }
        buf
    }
}

/// Trait for hash functions with customization string for domain
/// separation.
pub trait CustomizedInit: Sized {
    /// The customization string this instance was created with.
    spec fn spec_customization(&self) -> Seq<u8>;

    /// Create new hasher instance with the given customization string.
    fn new_customized(customization: &[u8]) -> (r: Self)
        ensures
            r.spec_customization() == customization@,
    ;
}

/// Trait adding customization string to hash functions with variable
/// output.
pub trait VarOutputCustomized: Sized {
    /// The customization string this instance was created with.
    spec fn spec_customization(&self) -> Seq<u8>;

    /// The output size this instance was created with.
    spec fn spec_customized_output_size(&self) -> usize;

    /// Create new hasher instance with the given customization string
    /// and output size.
    fn new_customized(customization: &[u8], output_size: usize) -> (r: Self)
        ensures
            r.spec_customization() == customization@,
            r.spec_customized_output_size() == output_size,
    ;
}

/// Types with a certain collision resistance.
///
/// The collision resistance in bytes applies to an output size of twice
/// that many bytes; the collision resistance with a smaller output size
/// is not defined by this trait and is at least the given collision
/// resistance with a bigger output.
pub trait CollisionResistance {
    /// Collision resistance in bytes.
    spec fn spec_collision_resistance() -> usize;

    /// Collision resistance in bytes.
    fn collision_resistance() -> (r: usize)
        ensures
            r == Self::spec_collision_resistance(),
    ;
}

} // verus!
