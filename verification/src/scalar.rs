//! The scalar capability: a field-like element type supplying its additive
//! and multiplicative identities, addition, multiplication and conjugation,
//! each tied to a spec-level counterpart, together with the identity laws
//! the dispatch layer relies on.

use vstd::prelude::*;

verus! {

/// A scalar usable as a matrix or vector element. Every executable
/// operation is pinned to a spec function, and the identity laws below let
/// the dispatch layer reduce the general affine kernel forms
/// (`alpha * sum + beta * y`) to the plain product when `alpha` is one and
/// `beta` is zero.
pub trait Scalar: Sized + Copy {
    /// The additive identity, as a mathematical value.
    spec fn spec_zero() -> Self;

    /// The multiplicative identity, as a mathematical value.
    spec fn spec_one() -> Self;

    /// Addition, as a mathematical function.
    spec fn spec_plus(a: Self, b: Self) -> Self;

    /// Multiplication, as a mathematical function.
    spec fn spec_times(a: Self, b: Self) -> Self;

    /// Conjugation, as a mathematical function (the identity on real
    /// scalars).
    spec fn spec_conj(a: Self) -> Self;

    /// The additive identity.
    fn zero() -> (r: Self)
        ensures
            r == Self::spec_zero(),
    ;

    /// The multiplicative identity.
    fn one() -> (r: Self)
        ensures
            r == Self::spec_one(),
    ;

    /// Addition.
    fn plus(self, b: Self) -> (r: Self)
        ensures
            r == Self::spec_plus(self, b),
    ;

    /// Multiplication.
    fn times(self, b: Self) -> (r: Self)
        ensures
            r == Self::spec_times(self, b),
    ;

    /// Conjugation.
    fn conj(self) -> (r: Self)
        ensures
            r == Self::spec_conj(self),
    ;

    /// Equality test on scalar values.
    fn eq_val(self, b: Self) -> (r: bool)
        ensures
            r == (self == b),
    ;

    /// One is a left identity of multiplication.
    proof fn lemma_one_times(a: Self)
        ensures
            Self::spec_times(Self::spec_one(), a) == a,
    ;

    /// Zero annihilates under multiplication on the left.
    proof fn lemma_zero_times(a: Self)
        ensures
            Self::spec_times(Self::spec_zero(), a) == Self::spec_zero(),
    ;

    /// Zero is a right identity of addition.
    proof fn lemma_plus_zero(a: Self)
        ensures
            Self::spec_plus(a, Self::spec_zero()) == a,
    ;

    /// Zero is a left identity of addition.
    proof fn lemma_zero_plus(a: Self)
        ensures
            Self::spec_plus(Self::spec_zero(), a) == a,
    ;
}

impl Scalar for i64 {
    open spec fn spec_zero() -> i64 {
        0i64
    }

    open spec fn spec_one() -> i64 {
        1i64
    }

    open spec fn spec_plus(a: i64, b: i64) -> i64 {
        vstd::wrapping::i64_specs::wrapping_add(a, b)
    }

    open spec fn spec_times(a: i64, b: i64) -> i64 {
        vstd::wrapping::i64_specs::wrapping_mul(a, b)
    }

    open spec fn spec_conj(a: i64) -> i64 {
        a
    }

    fn zero() -> (r: i64) {
        0i64
    }

    fn one() -> (r: i64) {
        1i64
    }

    fn plus(self, b: i64) -> (r: i64) {
        self.wrapping_add(b)
    }

    fn times(self, b: i64) -> (r: i64) {
        self.wrapping_mul(b)
    }

    fn conj(self) -> (r: i64) {
        self
    }

    fn eq_val(self, b: i64) -> (r: bool) {
        self == b
    }

    proof fn lemma_one_times(a: i64) {
        lemma_i64_signed_crop_identity(a);
    }

    proof fn lemma_zero_times(a: i64) {
        lemma_i64_signed_crop_identity(0);
    }

    proof fn lemma_plus_zero(a: i64) {
    }

    proof fn lemma_zero_plus(a: i64) {
    }
}

/// A product that already lies in the `i64` range is returned unchanged by
/// the wrap-around correction.
proof fn lemma_i64_signed_crop_identity(x: i64)
    ensures
        vstd::wrapping::i64_specs::signed_crop(x as int) == x,
{
    let range = 0x1_0000_0000_0000_0000int;
    if x >= 0 {
        assert((x as int) % range == x as int) by {
            vstd::arithmetic::div_mod::lemma_small_mod(x as nat, range as nat);
        }
    } else {
        assert((x as int) % range == x + range) by {
            vstd::arithmetic::div_mod::lemma_mod_self_0(range);
            vstd::arithmetic::div_mod::lemma_add_mod_noop(x as int + range, 0, range);
            vstd::arithmetic::div_mod::lemma_small_mod((x + range) as nat, range as nat);
        }
    }
}

} // verus!
