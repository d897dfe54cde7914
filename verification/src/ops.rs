//! Arithmetic capabilities for elliptic curve field elements, and batched
//! modular inversion.
//!
//! The centrepiece is "Montgomery's trick" ([`BatchInvert`]): computing
//! the inverses of a whole sequence of field elements at the cost of a
//! single inversion plus a linear number of multiplications, failing as a
//! unit — without early exit — if any element is non-invertible.

use vstd::prelude::*;

verus! {

/// A value in a finite field (a curve scalar or coordinate), exposing the
/// operations the batched inversion engine needs: multiplication, a
/// single-element inverse with a success flag, a constant-time selection,
/// and a default element for scratch storage.
///
/// [`FieldElement::lemma_field_laws`] obliges every implementation to
/// prove the algebraic facts the engine relies on: multiplication is
/// commutative and associative with an identity, a product is invertible
/// exactly when both factors are (the field has no zero divisors), and an
/// invertible element times its inverse is the identity.
pub trait FieldElement: Sized + Copy {
    /// Multiplication in the field.
    spec fn spec_mul(self, rhs: Self) -> Self;

    /// The multiplicative identity.
    spec fn spec_one() -> Self;

    /// The multiplicative inverse; meaningful only for invertible
    /// elements.
    spec fn spec_inv(self) -> Self;

    /// Whether the element has a multiplicative inverse (false exactly
    /// for the additive identity of a field).
    spec fn is_invertible(self) -> bool;

    /// The multiplicative algebra of a field, as far as batched inversion
    /// relies on it.
    proof fn lemma_field_laws(a: Self, b: Self, c: Self)
        ensures
            a.spec_mul(b) == b.spec_mul(a),
            a.spec_mul(b).spec_mul(c) == a.spec_mul(b.spec_mul(c)),
            Self::spec_one().spec_mul(a) == a,
            a.spec_mul(b).is_invertible() <==> a.is_invertible() && b.is_invertible(),
            a.is_invertible() ==> a.spec_mul(a.spec_inv()) == Self::spec_one(),
    ;

    /// Multiply two field elements.
    fn multiply(self, rhs: Self) -> (r: Self)
        ensures
            r == self.spec_mul(rhs),
    ;

    /// Invert a field element, returning the inverse together with a
    /// success flag instead of branching: the flag is set exactly when
    /// the element is invertible, and the accompanying value is the
    /// inverse in that event and unspecified otherwise.
    fn invert(self) -> (r: (Self, bool))
        ensures
            r.1 == self.is_invertible(),
            r.1 ==> r.0 == self.spec_inv(),
    ;

    /// Constant-time selection: `b` if `choice` is set, else `a`,
    /// computed without branching on the (possibly secret) choice.
    fn conditional_select(a: &Self, b: &Self, choice: bool) -> (r: Self)
        ensures
            r == if choice {
                *b
            } else {
                *a
            },
    ;

    /// An arbitrary element used to fill scratch storage.
    fn default_value() -> Self;
}

/// The running product `s[0] * s[1] * ... * s[i]`.
spec fn prefix_product<T: FieldElement>(s: Seq<T>, i: int) -> T
    recommends
        0 <= i < s.len(),
    decreases i,
{
    if i <= 0 {
        s[0]
    } else {
        prefix_product(s, i - 1).spec_mul(s[i])
    }
}

/// An element whose product with an invertible `x` is the identity is
/// the inverse of `x`.
pub proof fn lemma_inverse_unique<T: FieldElement>(x: T, y: T)
    requires
        x.is_invertible(),
        x.spec_mul(y) == T::spec_one(),
    ensures
        y == x.spec_inv(),
{
    let inv = x.spec_inv();
    // y == one * y == (x * inv) * y == (inv * x) * y == inv * (x * y)
    //   == inv * one == one * inv == inv
    T::lemma_field_laws(x, inv, y);
    T::lemma_field_laws(inv, x, y);
    T::lemma_field_laws(y, x, inv);
    T::lemma_field_laws(inv, T::spec_one(), x);
    T::lemma_field_laws(T::spec_one(), inv, x);
}

/// A prefix product is invertible exactly when every factor is: the
/// field's multiplicative structure has no zero divisors, so checking the
/// final cumulative product detects a non-invertible element anywhere in
/// the batch.
proof fn lemma_prefix_product_invertible<T: FieldElement>(s: Seq<T>, i: int)
    requires
        0 <= i < s.len(),
    ensures
        prefix_product(s, i).is_invertible() <==> (forall|j: int|
            0 <= j <= i ==> s[j].is_invertible()),
    decreases i,
{
    if i == 0 {
    } else {
        lemma_prefix_product_invertible::<T>(s, i - 1);
        T::lemma_field_laws(prefix_product(s, i - 1), s[i], s[i]);
    }
}

/// Backward step of the trick: the inverse of the shorter prefix product
/// is the inverse of the longer one times the dropped factor.
proof fn lemma_prefix_inv_step<T: FieldElement>(s: Seq<T>, i: int)
    requires
        1 <= i < s.len(),
        forall|j: int| 0 <= j <= i ==> s[j].is_invertible(),
    ensures
        prefix_product(s, i - 1).spec_inv() == prefix_product(s, i).spec_inv().spec_mul(s[i]),
{
    let p_prev = prefix_product(s, i - 1);
    let p = prefix_product(s, i);
    let q = p.spec_inv();
    lemma_prefix_product_invertible::<T>(s, i);
    lemma_prefix_product_invertible::<T>(s, i - 1);
    // p_prev * (q * s[i]) == p_prev * (s[i] * q) == (p_prev * s[i]) * q
    //   == p * q == one
    T::lemma_field_laws(q, s[i], p_prev);
    T::lemma_field_laws(p_prev, s[i], q);
    T::lemma_field_laws(p, q, q);
    lemma_inverse_unique::<T>(p_prev, q.spec_mul(s[i]));
}

/// Recovery step of the trick: the inverse of the longer prefix product
/// times the shorter prefix product is the inverse of the last factor.
proof fn lemma_element_inverse<T: FieldElement>(s: Seq<T>, i: int)
    requires
        1 <= i < s.len(),
        forall|j: int| 0 <= j <= i ==> s[j].is_invertible(),
    ensures
        prefix_product(s, i).spec_inv().spec_mul(prefix_product(s, i - 1)) == s[i].spec_inv(),
{
    let p_prev = prefix_product(s, i - 1);
    let p = prefix_product(s, i);
    let q = p.spec_inv();
    lemma_prefix_product_invertible::<T>(s, i);
    lemma_prefix_product_invertible::<T>(s, i - 1);
    // s[i] * (q * p_prev) == s[i] * (p_prev * q) == (s[i] * p_prev) * q
    //   == (p_prev * s[i]) * q == p * q == one
    T::lemma_field_laws(q, p_prev, s[i]);
    T::lemma_field_laws(s[i], p_prev, q);
    T::lemma_field_laws(p, q, q);
    lemma_inverse_unique::<T>(s[i], q.spec_mul(p_prev));
}

/// A vector of `n` scratch elements.
fn scratch_vec<T: FieldElement>(n: usize) -> (r: Vec<T>)
    ensures
        r@.len() == n,
{
    let mut out: Vec<T> = Vec::new();
    let mut i: usize = 0;
    while i < n
        invariant
            i <= n,
            out@.len() == i,
        decreases n - i,
    {
        out.push(T::default_value());
        i = i + 1;
    }
    out
}

/// Implements "Montgomery's trick", a trick for computing many modular
/// inverses at once.
///
/// The trick reduces the problem of computing `n` inverses to computing a
/// single inversion, plus some storage and `O(n)` extra multiplications:
/// running prefix products are accumulated, only the final product is
/// inverted, and a backward pass turns that one inverse into the inverse
/// of every prefix product and from there into every individual inverse.
///
/// Returns the success flag: set exactly when the batch is non-empty,
/// every scratch sequence matches the batch in length, and every element
/// is invertible — the single inversion of the final cumulative product
/// is the only failure-detection point, and the passes run without
/// branching on it.  On success `field_elements_inverses` holds the
/// inverse of every input element.
fn invert_batch_internal<T: FieldElement>(
    field_elements: &[T],
    field_elements_multiples: &mut Vec<T>,
    field_elements_multiples_inverses: &mut Vec<T>,
    field_elements_inverses: &mut Vec<T>,
) -> (r: bool)
    ensures
        r <==> ({
            &&& field_elements@.len() > 0
            &&& old(field_elements_multiples)@.len() == field_elements@.len()
            &&& old(field_elements_multiples_inverses)@.len() == field_elements@.len()
            &&& old(field_elements_inverses)@.len() == field_elements@.len()
            &&& forall|i: int|
                0 <= i < field_elements@.len() ==> field_elements@[i].is_invertible()
        }),
        final(field_elements_multiples)@.len() == old(field_elements_multiples)@.len(),
        final(field_elements_multiples_inverses)@.len() == old(
            field_elements_multiples_inverses,
        )@.len(),
        final(field_elements_inverses)@.len() == old(field_elements_inverses)@.len(),
        r ==> forall|i: int|
            0 <= i < field_elements@.len() ==> final(field_elements_inverses)@[i]
                == field_elements@[i].spec_inv(),
{
    let ghost s = field_elements@;
    let batch_size: usize = field_elements.len();
    if batch_size == 0 || batch_size != field_elements_multiples.len() || batch_size
        != field_elements_multiples_inverses.len() || batch_size
        != field_elements_inverses.len() {
        return false;
    }
    let first_element: T = field_elements[0];
    field_elements_multiples[0] = first_element;
    proof {
        assert(prefix_product(s, 0) == s[0]);
    }
    let mut i: usize = 1;
    while i < batch_size
        invariant
            1 <= i <= batch_size,
            batch_size == s.len(),
            s == field_elements@,
            field_elements_multiples@.len() == batch_size,
            forall|j: int| 0 <= j < i ==> field_elements_multiples@[j] == prefix_product(s, j),
        decreases batch_size - i,
    {
        let prev: T = field_elements_multiples[i - 1];
        let x: T = field_elements[i];
        field_elements_multiples[i] = prev.multiply(x);
        proof {
            assert(prefix_product(s, i as int) == prefix_product(s, i as int - 1).spec_mul(
                s[i as int],
            ));
        }
        i = i + 1;
    }
    let last: T = field_elements_multiples[batch_size - 1];
    let (inverse_of_all, ok) = last.invert();
    proof {
        lemma_prefix_product_invertible::<T>(s, batch_size - 1);
    }
    field_elements_multiples_inverses[batch_size - 1] = inverse_of_all;
    let mut i: usize = batch_size - 1;
    while i > 0
        invariant
            0 <= i <= batch_size - 1,
            batch_size == s.len(),
            s == field_elements@,
            field_elements_multiples@.len() == batch_size,
            field_elements_multiples_inverses@.len() == batch_size,
            forall|j: int| 0 <= j < batch_size ==> field_elements_multiples@[j] == prefix_product(
                s,
                j,
            ),
            ok <==> (forall|j: int| 0 <= j < batch_size ==> s[j].is_invertible()),
            ok ==> forall|j: int|
                i <= j < batch_size ==> field_elements_multiples_inverses@[j] == prefix_product(
                    s,
                    j,
                ).spec_inv(),
        decreases i,
    {
        let cur: T = field_elements_multiples_inverses[i];
        let x: T = field_elements[i];
        field_elements_multiples_inverses[i - 1] = cur.multiply(x);
        proof {
            if ok {
                lemma_prefix_inv_step::<T>(s, i as int);
            }
        }
        i = i - 1;
    }
    let first_inverse: T = field_elements_multiples_inverses[0];
    field_elements_inverses[0] = first_inverse;
    let mut i: usize = 1;
    while i < batch_size
        invariant
            1 <= i <= batch_size,
            batch_size == s.len(),
            s == field_elements@,
            field_elements_multiples@.len() == batch_size,
            field_elements_multiples_inverses@.len() == batch_size,
            field_elements_inverses@.len() == batch_size,
            forall|j: int| 0 <= j < batch_size ==> field_elements_multiples@[j] == prefix_product(
                s,
                j,
            ),
            ok <==> (forall|j: int| 0 <= j < batch_size ==> s[j].is_invertible()),
            ok ==> forall|j: int|
                0 <= j < batch_size ==> field_elements_multiples_inverses@[j] == prefix_product(
                    s,
                    j,
                ).spec_inv(),
            ok ==> forall|j: int|
                0 <= j < i ==> field_elements_inverses@[j] == s[j].spec_inv(),
        decreases batch_size - i,
    {
        let a: T = field_elements_multiples_inverses[i];
        let b: T = field_elements_multiples[i - 1];
        field_elements_inverses[i] = a.multiply(b);
        proof {
            if ok {
                lemma_element_inverse::<T>(s, i as int);
            }
        }
        i = i + 1;
    }
    ok
}

/// Perform a batched inversion on a sequence of field elements (i.e. base
/// field elements or scalars) at an amortized cost that should be
/// practically as efficient as a single inversion.
pub trait BatchInvert: FieldElement {
    /// Invert a batch of field elements.
    ///
    /// Returns every inverse exactly when the batch is non-empty and
    /// every element is invertible; an empty batch, or a non-invertible
    /// element anywhere in the batch, fails the whole batch as a unit,
    /// with no partial result and no indication of which element failed.
    fn batch_invert(field_elements: &[Self]) -> (r: Option<Vec<Self>>)
        ensures
            r is Some <==> field_elements@.len() > 0 && (forall|i: int|
                0 <= i < field_elements@.len() ==> field_elements@[i].is_invertible()),
            r matches Some(v) ==> v@.len() == field_elements@.len() && (forall|i: int|
                0 <= i < v@.len() ==> v@[i] == field_elements@[i].spec_inv()),
    ;
}

/// The sum `pairs[0].0 * pairs[0].1 + ... + pairs[n-1].0 * pairs[n-1].1`,
/// accumulated left to right from the group identity.
pub open spec fn spec_lincomb<P: LinearCombination>(pairs: Seq<(P, P::Scalar)>) -> P
    decreases pairs.len(),
{
    if pairs.len() == 0 {
        P::spec_identity()
    } else {
        spec_lincomb(pairs.drop_last()).spec_add(
            pairs.last().0.spec_scalar_mul(pairs.last().1),
        )
    }
}

/// Linear combination of curve points.
///
/// This trait enables optimized implementations of linear combinations
/// (e.g. Shamir's Trick): an implementation may override [`Self::lincomb`]
/// as long as it still computes the specified sum.
pub trait LinearCombination: Sized + Copy {
    /// The scalar type paired with each point.
    type Scalar: Copy;

    /// Scalar multiplication of a point.
    spec fn spec_scalar_mul(self, k: Self::Scalar) -> Self;

    /// Point addition.
    spec fn spec_add(self, rhs: Self) -> Self;

    /// The group identity, the empty sum.
    spec fn spec_identity() -> Self;

    /// Multiply a point by a scalar.
    fn scalar_mul(self, k: Self::Scalar) -> (r: Self)
        ensures
            r == self.spec_scalar_mul(k),
    ;

    /// Add two points.
    fn add_point(self, rhs: Self) -> (r: Self)
        ensures
            r == self.spec_add(rhs),
    ;

    /// The group identity.
    fn identity() -> (r: Self)
        ensures
            r == Self::spec_identity(),
    ;
}

/// Calculates `x1 * k1 + ... + xn * kn`.
pub fn lincomb<P: LinearCombination>(points_and_scalars: &[(P, P::Scalar)]) -> (r: P)
    ensures
        r == spec_lincomb(points_and_scalars@),
{
    let n: usize = points_and_scalars.len();
    let mut acc: P = P::identity();
    proof {
        assert(points_and_scalars@.take(0) =~= Seq::<(P, P::Scalar)>::empty());
    }
    let mut i: usize = 0;
    while i < n
        invariant
            i <= n,
            n == points_and_scalars@.len(),
            acc == spec_lincomb(points_and_scalars@.take(i as int)),
        decreases n - i,
    {
        let pair: (P, P::Scalar) = points_and_scalars[i];
        acc = acc.add_point(pair.0.scalar_mul(pair.1));
        proof {
            assert(points_and_scalars@.take(i as int + 1).drop_last() =~= points_and_scalars@.take(
                i as int,
            ));
            assert(points_and_scalars@.take(i as int + 1).last() == points_and_scalars@[i as int]);
        }
        i = i + 1;
    }
    proof {
        assert(points_and_scalars@.take(n as int) =~= points_and_scalars@);
    }
    acc
}

/// Modular reduction.
///
/// `Uint` is the wide integer type that is reduced into a field element;
/// each implementation fixes what its reduction function is through the
/// spec functions, and the executable operations are bound to them.
pub trait Reduce<Uint>: Sized {
    /// Bytes used as input to [`Reduce::reduce_bytes`].
    type Bytes;

    /// The reduction function.
    spec fn spec_reduce(n: Uint) -> Self;

    /// The reduction function on a byte encoding.
    spec fn spec_reduce_bytes(bytes: Self::Bytes) -> Self;

    /// Perform a modular reduction, returning a field element.
    fn reduce(n: Uint) -> (r: Self)
        ensures
            r == Self::spec_reduce(n),
    ;

    /// Interpret the given bytes as an integer and perform a modular
    /// reduction.
    fn reduce_bytes(bytes: &Self::Bytes) -> (r: Self)
        ensures
            r == Self::spec_reduce_bytes(*bytes),
    ;
}

/// Modular reduction to a non-zero output.
///
/// This trait is primarily intended for use by curve implementations;
/// the result is never the additive identity, whatever the input.
pub trait ReduceNonZero<Uint>: Reduce<Uint> {
    /// Whether an element is the additive identity.
    spec fn spec_is_zero(self) -> bool;

    /// The non-zero reduction function.
    spec fn spec_reduce_nonzero(n: Uint) -> Self;

    /// The non-zero reduction function on a byte encoding.
    spec fn spec_reduce_nonzero_bytes(bytes: Self::Bytes) -> Self;

    /// Perform a modular reduction, returning a non-zero field element.
    fn reduce_nonzero(n: Uint) -> (r: Self)
        ensures
            r == Self::spec_reduce_nonzero(n),
            !r.spec_is_zero(),
    ;

    /// Interpret the given bytes as an integer and perform a modular
    /// reduction to a non-zero output.
    fn reduce_nonzero_bytes(bytes: &Self::Bytes) -> (r: Self)
        ensures
            r == Self::spec_reduce_nonzero_bytes(*bytes),
            !r.spec_is_zero(),
    ;
}

impl<T: FieldElement> BatchInvert for T {
    fn batch_invert(field_elements: &[T]) -> (r: Option<Vec<T>>) {
        let n: usize = field_elements.len();
        let mut field_elements_multiples: Vec<T> = scratch_vec(n);
        let mut field_elements_multiples_inverses: Vec<T> = scratch_vec(n);
        let mut field_elements_inverses: Vec<T> = scratch_vec(n);
        let inversion_succeeded = invert_batch_internal(
            field_elements,
            &mut field_elements_multiples,
            &mut field_elements_multiples_inverses,
            &mut field_elements_inverses,
        );
        if inversion_succeeded {
            Some(field_elements_inverses)
        } else {
            None
        }
    }
}

} // verus!
