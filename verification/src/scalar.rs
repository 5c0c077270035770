//! The element contract of the engine.
//!
//! Tensor elements are values of an abstract scalar type supplied by the
//! caller (the array/device layer). The engine never inspects an element: it
//! only combines elements through the operations below, and every contract in
//! the crate is stated over the corresponding spec-level operations. Each
//! implementation fixes the meaning of those spec functions for its own
//! element type and promises that the executable operations agree with them.

use vstd::prelude::*;

verus! {

/// An abstract tensor element.
///
/// Each executable operation must return exactly what its spec-level
/// counterpart describes, and must be total: the engine relies on element
/// operations never failing.
pub trait Scalar: Copy + Sized {
    /// The additive identity used to zero-fill gradient buffers.
    spec fn zero_s() -> Self;

    /// The multiplicative identity used to seed a backward pass.
    spec fn one_s() -> Self;

    spec fn add_s(self, other: Self) -> Self;

    spec fn sub_s(self, other: Self) -> Self;

    spec fn mul_s(self, other: Self) -> Self;

    /// Fused multiply-add, `self · other + acc`: the single contraction
    /// step of the general matrix-multiply primitive.
    spec fn mul_add_s(self, other: Self, acc: Self) -> Self;

    spec fn div_s(self, other: Self) -> Self;

    spec fn neg_s(self) -> Self;

    spec fn abs_s(self) -> Self;

    /// The derivative of `abs_s` where it exists; implementations choose the
    /// value at the non-differentiable point.
    spec fn sign_s(self) -> Self;

    spec fn exp_s(self) -> Self;

    /// The element standing for a buffer length, used as the divisor of a
    /// mean reduction.
    spec fn from_count_s(n: usize) -> Self;

    fn zero() -> (r: Self)
        ensures
            r == Self::zero_s(),
    ;

    fn one() -> (r: Self)
        ensures
            r == Self::one_s(),
    ;

    fn plus(self, other: Self) -> (r: Self)
        ensures
            r == self.add_s(other),
    ;

    fn minus(self, other: Self) -> (r: Self)
        ensures
            r == self.sub_s(other),
    ;

    fn times(self, other: Self) -> (r: Self)
        ensures
            r == self.mul_s(other),
    ;

    fn mul_add(self, other: Self, acc: Self) -> (r: Self)
        ensures
            r == self.mul_add_s(other, acc),
    ;

    fn div_by(self, other: Self) -> (r: Self)
        ensures
            r == self.div_s(other),
    ;

    fn neg(self) -> (r: Self)
        ensures
            r == self.neg_s(),
    ;

    fn abs_val(self) -> (r: Self)
        ensures
            r == self.abs_s(),
    ;

    fn sign_val(self) -> (r: Self)
        ensures
            r == self.sign_s(),
    ;

    fn exp_val(self) -> (r: Self)
        ensures
            r == self.exp_s(),
    ;

    fn from_count(n: usize) -> (r: Self)
        ensures
            r == Self::from_count_s(n),
    ;
}

/// The all-zero buffer of length `n`.
pub open spec fn zero_seq<E: Scalar>(n: nat) -> Seq<E> {
    Seq::new(n, |i: int| E::zero_s())
}

/// The all-one buffer of length `n`, the seed of a backward pass.
pub open spec fn one_seq<E: Scalar>(n: nat) -> Seq<E> {
    Seq::new(n, |i: int| E::one_s())
}

/// A freshly allocated zero-filled buffer.
pub fn alloc_zeros<E: Scalar>(n: usize) -> (r: Vec<E>)
    ensures
        r@ == zero_seq::<E>(n as nat),
{
    let mut v: Vec<E> = Vec::new();
    let z = E::zero();
    let mut i: usize = 0;
    while i < n
        invariant
            i <= n,
            z == E::zero_s(),
            v@.len() == i,
            forall|k: int| 0 <= k < i ==> v@[k] == E::zero_s(),
        decreases n - i,
    {
        v.push(z);
        i = i + 1;
    }
    proof {
        assert(v@ =~= zero_seq::<E>(n as nat));
    }
    v
}

/// A freshly allocated all-one buffer, the seed of a backward pass.
pub fn alloc_ones<E: Scalar>(n: usize) -> (r: Vec<E>)
    ensures
        r@ == one_seq::<E>(n as nat),
{
    let mut v: Vec<E> = Vec::new();
    let e = E::one();
    let mut i: usize = 0;
    while i < n
        invariant
            i <= n,
            e == E::one_s(),
            v@.len() == i,
            forall|k: int| 0 <= k < i ==> v@[k] == E::one_s(),
        decreases n - i,
    {
        v.push(e);
        i = i + 1;
    }
    proof {
        assert(v@ =~= one_seq::<E>(n as nat));
    }
    v
}

/// A copy of a buffer, element for element.
pub fn copy_buf<E: Scalar>(v: &Vec<E>) -> (r: Vec<E>)
    ensures
        r@ == v@,
{
    let mut out: Vec<E> = Vec::new();
    let mut i: usize = 0;
    while i < v.len()
        invariant
            i <= v@.len(),
            out@.len() == i,
            forall|k: int| 0 <= k < i ==> out@[k] == v@[k],
        decreases v@.len() - i,
    {
        out.push(v[i]);
        i = i + 1;
    }
    proof {
        assert(out@ =~= v@);
    }
    out
}

} // verus!
