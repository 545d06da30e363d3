//! The field laws, as they hold of the operations on field elements. Each is
//! stated of the results that the operators are specified to give, compared
//! as the elements' equality compares them.
use crate::arith::{lemma_u256_of, U256};
use crate::fields::fp::Fp;
use crate::lemmas::primes::{
    is_quadratic_residue, lemma_equal_squares, lemma_no_zero_divisors, square_residue,
};
use vstd::arithmetic::div_mod::*;
use vstd::arithmetic::mul::*;
use vstd::prelude::*;
use vstd::std_specs::cmp::PartialEqSpec;
use vstd::std_specs::convert::FromSpec;
use vstd::std_specs::ops::{AddSpec, MulSpec, NegSpec, SubSpec};

verus! {

impl<const BASE_FIELD: bool> Fp<BASE_FIELD> {
    /// What the operators give, as residues.
    pub proof fn lemma_operators(a: Self, b: Self)
        ensures
            a.add_spec(b)@ == (a@ + b@) % Self::prime(),
            a.sub_spec(b)@ == (a@ - b@) % (Self::prime() as int),
            a.mul_spec(b)@ == (a@ * b@) % Self::prime(),
            a.neg_spec()@ == (-(a@ as int)) % (Self::prime() as int),
            a@ < Self::prime(),
    {
        let p = Self::prime();
        a.lemma_value((a@ + b@) % p);
        a.lemma_value(((a@ - b@) % (p as int)) as nat);
        a.lemma_value((a@ * b@) % p);
        a.lemma_value(((-(a@ as int)) % (p as int)) as nat);
        lemma_mod_twice((a@ + b@) as int, p as int);
        lemma_mod_twice(a@ - b@, p as int);
        lemma_mod_twice((a@ * b@) as int, p as int);
        lemma_mod_twice(-(a@ as int), p as int);
        lemma_mod_bound(a@ - b@, p as int);
        lemma_mod_bound(-(a@ as int), p as int);
    }

    /// An integer below the prime, made an element and read back, is the
    /// integer.
    pub proof fn lemma_round_trip(x: U256)
        requires
            x@ < Self::prime(),
        ensures
            U256::from_spec(Self::from_value(x@)) == x,
    {
        Self::from_value(x@).lemma_value(x@);
        lemma_small_mod(x@, Self::prime());
        lemma_u256_of(x@, x);
    }

    /// Addition is associative.
    pub proof fn lemma_add_associative(a: Self, b: Self, c: Self)
        ensures
            a.add_spec(b).add_spec(c).eq_spec(&a.add_spec(b.add_spec(c))),
    {
        let p = Self::prime() as int;
        Self::lemma_operators(a, b);
        Self::lemma_operators(b, c);
        Self::lemma_operators(a.add_spec(b), c);
        Self::lemma_operators(a, b.add_spec(c));
        lemma_add_mod_noop_right(c@ as int, (a@ + b@) as int, p);
        lemma_add_mod_noop_right(a@ as int, (b@ + c@) as int, p);
    }

    /// Addition is commutative.
    pub proof fn lemma_add_commutative(a: Self, b: Self)
        ensures
            a.add_spec(b).eq_spec(&b.add_spec(a)),
    {
        Self::lemma_operators(a, b);
        Self::lemma_operators(b, a);
    }

    /// Multiplication is associative.
    pub proof fn lemma_mul_associative(a: Self, b: Self, c: Self)
        ensures
            a.mul_spec(b).mul_spec(c).eq_spec(&a.mul_spec(b.mul_spec(c))),
    {
        let p = Self::prime() as int;
        Self::lemma_operators(a, b);
        Self::lemma_operators(b, c);
        Self::lemma_operators(a.mul_spec(b), c);
        Self::lemma_operators(a, b.mul_spec(c));
        lemma_mul_mod_noop_left((a@ * b@) as int, c@ as int, p);
        lemma_mul_mod_noop_right(a@ as int, (b@ * c@) as int, p);
        lemma_mul_is_associative(a@ as int, b@ as int, c@ as int);
    }

    /// Multiplication is commutative.
    pub proof fn lemma_mul_commutative(a: Self, b: Self)
        ensures
            a.mul_spec(b).eq_spec(&b.mul_spec(a)),
    {
        Self::lemma_operators(a, b);
        Self::lemma_operators(b, a);
        lemma_mul_is_commutative(a@ as int, b@ as int);
    }

    /// Multiplication distributes over addition.
    pub proof fn lemma_mul_distributive(a: Self, b: Self, c: Self)
        ensures
            a.mul_spec(b.add_spec(c)).eq_spec(&a.mul_spec(b).add_spec(a.mul_spec(c))),
    {
        let p = Self::prime() as int;
        Self::lemma_operators(b, c);
        Self::lemma_operators(a, b);
        Self::lemma_operators(a, c);
        Self::lemma_operators(a, b.add_spec(c));
        Self::lemma_operators(a.mul_spec(b), a.mul_spec(c));
        lemma_mul_mod_noop_right(a@ as int, (b@ + c@) as int, p);
        lemma_add_mod_noop((a@ * b@) as int, (a@ * c@) as int, p);
        lemma_mul_is_distributive_add(a@ as int, b@ as int, c@ as int);
    }

    /// An element and its negative add up to zero.
    pub proof fn lemma_add_negative(a: Self, zero: Self)
        requires
            zero@ == 0,
        ensures
            a.add_spec(a.neg_spec()).eq_spec(&zero),
    {
        let p = Self::prime() as int;
        Self::lemma_operators(a, a.neg_spec());
        lemma_add_mod_noop_right(a@ as int, -(a@ as int), p);
        assert(a@ + (-(a@ as int)) == 0);
        lemma_small_mod(0, Self::prime());
    }

    /// Subtracting is adding the negative.
    pub proof fn lemma_sub_is_add_negative(a: Self, b: Self)
        ensures
            a.sub_spec(b).eq_spec(&a.add_spec(b.neg_spec())),
    {
        let p = Self::prime() as int;
        Self::lemma_operators(a, b);
        Self::lemma_operators(b, b);
        Self::lemma_operators(a, b.neg_spec());
        lemma_add_mod_noop_right(a@ as int, -(b@ as int), p);
    }

    /// Zero added to an element leaves the element.
    pub proof fn lemma_add_zero(a: Self, zero: Self)
        requires
            zero@ == 0,
        ensures
            a.add_spec(zero).eq_spec(&a),
    {
        Self::lemma_operators(a, zero);
        lemma_small_mod(a@, Self::prime());
    }

    /// One multiplied with an element leaves the element.
    pub proof fn lemma_mul_one(a: Self, one: Self)
        requires
            one@ == 1,
        ensures
            a.mul_spec(one).eq_spec(&a),
    {
        Self::lemma_operators(a, one);
        assert(a@ * 1 == a@);
        lemma_small_mod(a@, Self::prime());
    }

    /// Multiplying an element by one plus one is adding the element to
    /// itself.
    pub proof fn lemma_mul_two(a: Self, one: Self)
        requires
            one@ == 1,
        ensures
            a.mul_spec(one.add_spec(one)).eq_spec(&a.add_spec(a)),
    {
        let p = Self::prime() as int;
        Self::lemma_operators(one, one);
        Self::lemma_operators(a, one.add_spec(one));
        Self::lemma_operators(a, a);
        lemma_mul_mod_noop_right(a@ as int, 2, p);
        assert(a@ * 2 == a@ + a@);
    }

    /// An element has at most one inverse.
    pub proof fn lemma_inverse_unique(a: Self, b: Self, c: Self, one: Self)
        requires
            one@ == 1,
            a.mul_spec(b).eq_spec(&one),
            a.mul_spec(c).eq_spec(&one),
        ensures
            b.eq_spec(&c),
    {
        let p = Self::prime();
        let pi = p as int;
        Self::lemma_prime();
        Self::lemma_operators(a, b);
        Self::lemma_operators(a, c);
        Self::lemma_operators(b, c);
        Self::lemma_operators(c, b);
        // a * (b - c) is a multiple of the prime, and a is not
        let (hi, lo) = if b@ >= c@ {
            (b@, c@)
        } else {
            (c@, b@)
        };
        let d = (hi - lo) as nat;
        lemma_mod_equivalence((a@ * hi) as int, (a@ * lo) as int, pi);
        assert(a@ * d == a@ * hi - a@ * lo) by (nonlinear_arith)
            requires
                d == hi - lo,
        ;
        lemma_no_zero_divisors(a@, d, p);
        lemma_small_mod(d, p);
        if a@ % p == 0 {
            lemma_small_mod(a@, p);
            assert(0 * b@ == 0);
            lemma_small_mod(0, p);
        }
    }
}

impl Fp<true> {
    /// The square of an element of the base field has a square root, and
    /// every square root of it is the element or its negative.
    pub proof fn lemma_square_roots(x: Self, y: Self)
        ensures
            is_quadratic_residue(x.mul_spec(x)@, Self::prime()),
            square_residue(y@, Self::prime()) == x.mul_spec(x)@ ==> y.eq_spec(&x) || y.eq_spec(
                &x.neg_spec(),
            ),
    {
        let p = Self::prime();
        Self::lemma_prime();
        Self::lemma_operators(x, x);
        Self::lemma_operators(y, y);
        assert(square_residue(x@, p) == x.mul_spec(x)@);
        if square_residue(y@, p) == x.mul_spec(x)@ {
            lemma_equal_squares(y@, x@, p);
            if x@ + y@ == p {
                lemma_fundamental_div_mod_converse(-(x@ as int), p as int, -1, y@ as int);
            } else if x@ + y@ == 0 {
                lemma_small_mod(0, p);
            }
        }
    }
}

} // verus!
