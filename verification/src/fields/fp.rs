//! Elements of the two prime fields, held in Montgomery form.
use crate::arith::{
    is_montgomery_inv, lemma_u256_of, limb_base, mono_invert, mono_mul, u256_bits, u256_of,
    u256_set_bit, wide_base, words4, U256,
};
use crate::fields::u512::U512;
use crate::lemmas::bits::{lemma_bit_of_step, lemma_pow2_values, with_bit};
use crate::lemmas::certificates::{lemma_base_prime, lemma_scalar_prime};
use crate::lemmas::primes::{
    is_field_modulus, is_generator, is_prime, is_quadratic_residue, lemma_euler_criterion,
    lemma_field_modulus_coprime, lemma_field_modulus_is_prime, lemma_power_of_one,
    lemma_power_residue_adds, power_residue, square_residue,
};
use crate::lemmas::montgomery::{
    from_montgomery, is_radix_inverse, lemma_from_montgomery_injective,
    lemma_from_to_montgomery, lemma_montgomery_difference, lemma_montgomery_product,
    lemma_montgomery_inverse, lemma_montgomery_lift, lemma_montgomery_reduce,
    lemma_montgomery_sum, lemma_to_from_montgomery, to_montgomery,
};
use crate::wrappers::{add_mod_words, be_value, neg_mod_words, sub_mod_words};
use core::ops::{Add, Mul, Neg, Sub};
use vstd::arithmetic::div_mod::*;
use vstd::arithmetic::mul::*;
use vstd::arithmetic::power::*;
use vstd::arithmetic::power2::*;
use vstd::prelude::*;
use vstd::string::StrSliceExecFns;
use vstd::std_specs::cmp::PartialEqSpecImpl;
use vstd::std_specs::convert::FromSpecImpl;
use vstd::std_specs::ops::{AddSpecImpl, MulSpecImpl, NegSpecImpl, SubSpecImpl};

verus! {

/// The prime of the scalar field.
#[verifier::inline]
pub open spec fn scalar_prime() -> nat {
    0x30644e72e131a029_b85045b68181585d_2833e84879b97091_43e1f593f0000001int as nat
}

/// The prime of the base field.
#[verifier::inline]
pub open spec fn base_prime() -> nat {
    0x30644e72e131a029_b85045b68181585d_97816a916871ca8d_3c208c16d87cfd47int as nat
}

/// The inverse of 2^256 modulo the prime of the base field where
/// `base_field` holds, of the scalar field where not.
#[verifier::inline]
pub open spec fn radix_inverse(base_field: bool) -> nat {
    if base_field {
        0x2e67157159e5c639_cf63e9cfb74492d9_eb2022850278edf8_ed84884a014afa37int as nat
    } else {
        0x15ebf95182c5551c_c8260de4aeb85d5d_090ef5a9e111ec87_dc5ba0056db1194eint as nat
    }
}

/// An element of the base field of the curve where `BASE_FIELD` holds, of its
/// scalar field where not. It is kept as the Montgomery form of its residue,
/// always below the prime.
#[derive(Copy, Clone, Debug)]
pub struct Fp<const BASE_FIELD: bool> {
    repr: U256,
}

/// The scalar field.
pub type Fr = Fp<false>;

/// The base field.
pub type Fq = Fp<true>;

impl<const BASE_FIELD: bool> View for Fp<BASE_FIELD> {
    type V = nat;

    /// The residue that the element stands for.
    open spec fn view(&self) -> nat {
        from_montgomery(self.raw_value(), Self::prime(), radix_inverse(BASE_FIELD))
    }
}

impl<const BASE_FIELD: bool> Fp<BASE_FIELD> {
    /// The prime of the field.
    pub open spec fn prime() -> nat {
        if BASE_FIELD {
            base_prime()
        } else {
            scalar_prime()
        }
    }

    #[verifier::type_invariant]
    spec fn reduced(self) -> bool {
        self.repr@ < Self::prime()
    }

    /// The Montgomery form as held.
    pub closed spec fn raw_value(self) -> nat {
        self.repr@
    }

    /// The element that stands for the residue of `v`.
    pub closed spec fn from_value(v: nat) -> Self {
        Fp { repr: u256_of(to_montgomery(v, Self::prime())) }
    }

    /// The facts about the field's constants on which everything else rests:
    /// the prime is odd and leaves the two top bits of its 256 free, and the
    /// inverse of 2^256 is what it is said to be.
    proof fn lemma_constants()
        ensures
            Self::prime() % 2 == 1,
            1 < Self::prime() < wide_base() / 4,
            is_radix_inverse(Self::prime(), radix_inverse(BASE_FIELD)),
    {
    }

    /// A residue is below the prime, and `from_value` builds the element that
    /// stands for a residue.
    pub proof fn lemma_value(self, v: nat)
        ensures
            self@ < Self::prime(),
            Self::from_value(v)@ == v % Self::prime(),
            Self::from_value(v).raw_value() == to_montgomery(v, Self::prime()),
            self.raw_value() < Self::prime() ==> self.raw_value() == to_montgomery(
                self@,
                Self::prime(),
            ) && self == Self::from_value(self@),
    {
        Self::lemma_constants();
        let m = Self::prime();
        let x = to_montgomery(v, m);
        lemma_u256_of(x, self.repr);
        lemma_from_to_montgomery(v, m, radix_inverse(BASE_FIELD));
        if self.raw_value() < m {
            lemma_to_from_montgomery(self.repr@, m, radix_inverse(BASE_FIELD));
        }
    }

    /// The prime of the field.
    #[inline]
    pub fn modulus() -> (r: U256)
        ensures
            r@ == Self::prime(),
    {
        if BASE_FIELD {
            U256::from_words(
                [0x3c208c16d87cfd47, 0x97816a916871ca8d, 0xb85045b68181585d, 0x30644e72e131a029],
            )
        } else {
            U256::from_words(
                [0x43e1f593f0000001, 0x2833e84879b97091, 0xb85045b68181585d, 0x30644e72e131a029],
            )
        }
    }

    /// 2^512 modulo the prime: the Montgomery form of 2^256.
    fn r_squared() -> (r: U256)
        ensures
            r@ == to_montgomery(wide_base(), Self::prime()),
    {
        if BASE_FIELD {
            let r = U256::from_words(
                [0xf32cfc5b538afa89, 0xb5e71911d44501fb, 0x47ab1eff0a417ff6, 0x06d89f71cab8351f],
            );
            assert(r@ == 0x06d89f71cab8351f_47ab1eff0a417ff6_b5e71911d44501fb_f32cfc5b538afa89int);
            assert((wide_base() * wide_base()) % base_prime()
                == 0x06d89f71cab8351f_47ab1eff0a417ff6_b5e71911d44501fb_f32cfc5b538afa89int);
            r
        } else {
            let r = U256::from_words(
                [0x1bb8e645ae216da7, 0x53fe3ab1e35c59e3, 0x8c49833d53bb8085, 0x0216d0b17f4e44a5],
            );
            assert(r@ == 0x0216d0b17f4e44a5_8c49833d53bb8085_53fe3ab1e35c59e3_1bb8e645ae216da7int);
            assert((wide_base() * wide_base()) % scalar_prime()
                == 0x0216d0b17f4e44a5_8c49833d53bb8085_53fe3ab1e35c59e3_1bb8e645ae216da7int);
            r
        }
    }

    /// 2^768 modulo the prime: the Montgomery form of 2^512.
    fn r_cubed() -> (r: U256)
        ensures
            r@ == to_montgomery(wide_base() * wide_base(), Self::prime()),
    {
        if BASE_FIELD {
            let r = U256::from_words(
                [0xb1cd6dafda1530df, 0x62f210e6a7283db6, 0xef7f0b0c0ada0afb, 0x20fd6e902d592544],
            );
            assert(r@ == 0x20fd6e902d592544_ef7f0b0c0ada0afb_62f210e6a7283db6_b1cd6dafda1530dfint);
            assert((wide_base() * wide_base() * wide_base()) % base_prime()
                == 0x20fd6e902d592544_ef7f0b0c0ada0afb_62f210e6a7283db6_b1cd6dafda1530dfint);
            r
        } else {
            let r = U256::from_words(
                [0x5e94d8e1b4bf0040, 0x2a489cbe1cfbb6b8, 0x893cc664a19fcfed, 0x0cf8594b7fcc657c],
            );
            assert(r@ == 0x0cf8594b7fcc657c_893cc664a19fcfed_2a489cbe1cfbb6b8_5e94d8e1b4bf0040int);
            assert((wide_base() * wide_base() * wide_base()) % scalar_prime()
                == 0x0cf8594b7fcc657c_893cc664a19fcfed_2a489cbe1cfbb6b8_5e94d8e1b4bf0040int);
            r
        }
    }

    /// The Montgomery constant of the prime: its negated inverse modulo 2^128.
    #[inline]
    pub fn inv(&self) -> (r: u128)
        ensures
            is_montgomery_inv(Self::prime(), r),
    {
        Self::montgomery_inv()
    }

    /// The Montgomery constant of the prime.
    fn montgomery_inv() -> (r: u128)
        ensures
            is_montgomery_inv(Self::prime(), r),
    {
        if BASE_FIELD {
            assert(base_prime() % limb_base() == 0x97816a916871ca8d_3c208c16d87cfd47);
            assert((0x9ede7d651eca6ac9_87d20782e4866389int
                * 0x97816a916871ca8d_3c208c16d87cfd47int) % (limb_base() as int) == limb_base() - 1);
            0x9ede7d651eca6ac987d20782e4866389
        } else {
            assert(scalar_prime() % limb_base() == 0x2833e84879b97091_43e1f593f0000001);
            assert((0x6586864b4c6911b3_c2e1f593efffffffint
                * 0x2833e84879b97091_43e1f593f0000001int) % (limb_base() as int) == limb_base() - 1);
            0x6586864b4c6911b3c2e1f593efffffff
        }
    }

    /// The additive identity.
    #[inline]
    pub fn zero() -> (r: Self)
        ensures
            r@ == 0,
    {
        proof {
            Self::lemma_constants();
            assert(0nat * radix_inverse(BASE_FIELD) == 0);
        }
        Fp { repr: U256::from_words([0, 0, 0, 0]) }
    }

    /// The multiplicative identity.
    #[inline]
    pub fn one() -> (r: Self)
        ensures
            r@ == 1,
    {
        if BASE_FIELD {
            Fp {
                repr: U256::from_words(
                    [
                        0xd35d438dc58f0d9d,
                        0xa78eb28f5c70b3d,
                        0x666ea36f7879462c,
                        0xe0a77c19a07df2f,
                    ],
                ),
            }
        } else {
            Fp {
                repr: U256::from_words(
                    [
                        0xac96341c4ffffffb,
                        0x36fc76959f60cd29,
                        0x666ea36f7879462e,
                        0xe0a77c19a07df2f,
                    ],
                ),
            }
        }
    }
}

/// A product with a reduced factor leaves room in 512 bits for the multiples
/// of the prime that the reduction adds.
proof fn lemma_product_fits(a: nat, b: nat, m: nat)
    by (nonlinear_arith)
    requires
        a < wide_base(),
        b < m,
        m < wide_base() / 4,
    ensures
        a * b < wide_base() * m,
        a * b + wide_base() * m <= wide_base() * wide_base(),
{
    assert(a * b <= wide_base() * b);
    assert(wide_base() * b <= wide_base() * m);
    assert(wide_base() * m + wide_base() * m <= wide_base() * wide_base());
}

impl<const BASE_FIELD: bool> Fp<BASE_FIELD> {
    /// The Montgomery product of `a` and a reduced `b`, itself reduced.
    fn montgomery_product(a: U256, b: &U256) -> (r: U256)
        requires
            b@ < Self::prime(),
        ensures
            r@ < Self::prime(),
            (r@ * wide_base()) % Self::prime() == (a@ * b@) % Self::prime(),
    {
        proof {
            Self::lemma_constants();
            lemma_product_fits(a@, b@, Self::prime());
        }
        let mut a = a;
        mono_mul(&mut a, b, &Self::modulus(), Self::montgomery_inv());
        a
    }

    /// Converts a U256 to an Fp so long as it's below the modulus.
    pub fn new(a: U256) -> (r: Option<Self>)
        ensures
            r is Some <==> a@ < Self::prime(),
            r is Some ==> r->Some_0@ == a@,
    {
        if a < Self::modulus() {
            let repr = Self::montgomery_product(a, &Self::r_squared());
            proof {
                Self::lemma_constants();
                lemma_montgomery_lift(a@, repr@, Self::prime(), radix_inverse(BASE_FIELD));
                lemma_small_mod(a@, Self::prime());
            }
            Some(Fp { repr })
        } else {
            None
        }
    }

    /// Converts a U256 to an Fr regardless of modulus.
    pub fn new_mul_factor(a: U256) -> (r: Self)
        ensures
            r@ == a@ % Self::prime(),
    {
        let repr = Self::montgomery_product(a, &Self::r_squared());
        proof {
            Self::lemma_constants();
            lemma_montgomery_lift(a@, repr@, Self::prime(), radix_inverse(BASE_FIELD));
        }
        Fp { repr }
    }

    /// Reduces a 64-byte buffer, read most significant byte first, modulo the
    /// prime. Every buffer gives an element.
    pub fn interpret(buf: &[u8; 64]) -> (r: Self)
        ensures
            r@ == be_value(buf@) % Self::prime(),
            r@ < Self::prime(),
    {
        proof {
            Self::lemma_constants();
        }
        let (_, remainder) = U512::interpret(buf).divrem(&Self::modulus());
        Self::new(remainder).unwrap()
    }

    /// The Montgomery form as held.
    pub fn raw(&self) -> (r: &U256)
        ensures
            r@ == self.raw_value(),
            r@ == to_montgomery(self@, Self::prime()),
            r@ < Self::prime(),
    {
        proof {
            use_type_invariant(self);
            self.lemma_value(0);
        }
        &self.repr
    }

    /// Forces one bit of the Montgomery form as held. The form has to stay
    /// below the prime.
    pub fn set_bit(&mut self, bit: usize, to: bool)
        requires
            bit < 256 ==> with_bit(old(self).raw_value(), bit as nat, to) < Self::prime(),
        ensures
            bit < 256 ==> final(self).raw_value() == with_bit(
                old(self).raw_value(),
                bit as nat,
                to,
            ),
            bit >= 256 ==> final(self).raw_value() == old(self).raw_value(),
    {
        proof {
            use_type_invariant(&*self);
        }
        let mut repr = self.repr;
        u256_set_bit(&mut repr, bit, to);
        *self = Fp { repr };
    }

    /// Whether the element is zero.
    #[inline]
    pub fn is_zero(&self) -> (r: bool)
        ensures
            r == (self@ == 0),
    {
        proof {
            use_type_invariant(self);
            Self::lemma_constants();
            self.lemma_value(0);
            assert(0nat * wide_base() == 0);
            assert(0nat * radix_inverse(BASE_FIELD) == 0);
        }
        self.repr == U256::zero()
    }

    /// The square of the element.
    pub fn squared(&self) -> (r: Self)
        ensures
            r@ == (self@ * self@) % Self::prime(),
    {
        (*self) * (*self)
    }
}

impl<const BASE_FIELD: bool> PartialEq for Fp<BASE_FIELD> {
    /// Elements are equal where their residues are.
    fn eq(&self, other: &Self) -> (r: bool) {
        proof {
            use_type_invariant(self);
            use_type_invariant(other);
            Self::lemma_constants();
            if self@ == other@ {
                lemma_from_montgomery_injective(
                    self.repr@,
                    other.repr@,
                    Self::prime(),
                    radix_inverse(BASE_FIELD),
                );
            }
        }
        self.repr == other.repr
    }
}

impl<const BASE_FIELD: bool> Eq for Fp<BASE_FIELD> {

}

impl<const BASE_FIELD: bool> PartialEqSpecImpl for Fp<BASE_FIELD> {
    open spec fn obeys_eq_spec() -> bool {
        true
    }

    open spec fn eq_spec(&self, other: &Self) -> bool {
        self@ == other@
    }
}

impl<const BASE_FIELD: bool> From<Fp<BASE_FIELD>> for U256 {
    /// The residue that the element stands for.
    #[inline]
    fn from(a: Fp<BASE_FIELD>) -> (r: U256)
        ensures
            r@ == a@,
    {
        proof {
            use_type_invariant(&a);
            Fp::<BASE_FIELD>::lemma_constants();
        }
        let r = Fp::<BASE_FIELD>::montgomery_product(a.repr, &U256::one());
        proof {
            lemma_montgomery_reduce(
                a.repr@,
                r@,
                Fp::<BASE_FIELD>::prime(),
                radix_inverse(BASE_FIELD),
            );
            lemma_u256_of(a@, r);
        }
        r
    }
}

impl<const BASE_FIELD: bool> FromSpecImpl<Fp<BASE_FIELD>> for U256 {
    open spec fn obeys_from_spec() -> bool {
        true
    }

    open spec fn from_spec(a: Fp<BASE_FIELD>) -> U256 {
        u256_of(a@)
    }
}

impl<const BASE_FIELD: bool> Add for Fp<BASE_FIELD> {
    type Output = Fp<BASE_FIELD>;

    /// The sum of two elements.
    #[inline]
    fn add(self, other: Fp<BASE_FIELD>) -> (r: Fp<BASE_FIELD>)
        ensures
            r@ == (self@ + other@) % Self::prime(),
    {
        proof {
            use_type_invariant(&self);
            use_type_invariant(&other);
            Self::lemma_constants();
            lemma_montgomery_sum(
                self.repr@,
                other.repr@,
                Self::prime(),
                radix_inverse(BASE_FIELD),
            );
        }
        let sum = add_mod_words(
            self.repr.to_words(),
            other.repr.to_words(),
            Self::modulus().to_words(),
        );
        let r = Fp { repr: U256::from_words(sum) };
        proof {
            r.lemma_value(0);
        }
        r
    }
}

impl<const BASE_FIELD: bool> AddSpecImpl for Fp<BASE_FIELD> {
    open spec fn obeys_add_spec() -> bool {
        true
    }

    open spec fn add_req(self, other: Fp<BASE_FIELD>) -> bool {
        true
    }

    open spec fn add_spec(self, other: Fp<BASE_FIELD>) -> Fp<BASE_FIELD> {
        Self::from_value((self@ + other@) % Self::prime())
    }
}

impl<const BASE_FIELD: bool> Sub for Fp<BASE_FIELD> {
    type Output = Fp<BASE_FIELD>;

    /// The difference of two elements.
    #[inline]
    fn sub(self, other: Fp<BASE_FIELD>) -> (r: Fp<BASE_FIELD>)
        ensures
            r@ == (self@ - other@) % (Self::prime() as int),
    {
        proof {
            use_type_invariant(&self);
            use_type_invariant(&other);
            Self::lemma_constants();
            lemma_montgomery_difference(
                self.repr@,
                other.repr@,
                Self::prime(),
                radix_inverse(BASE_FIELD),
            );
        }
        let difference = sub_mod_words(
            self.repr.to_words(),
            other.repr.to_words(),
            Self::modulus().to_words(),
        );
        let r = Fp { repr: U256::from_words(difference) };
        proof {
            r.lemma_value(0);
        }
        r
    }
}

impl<const BASE_FIELD: bool> SubSpecImpl for Fp<BASE_FIELD> {
    open spec fn obeys_sub_spec() -> bool {
        true
    }

    open spec fn sub_req(self, other: Fp<BASE_FIELD>) -> bool {
        true
    }

    open spec fn sub_spec(self, other: Fp<BASE_FIELD>) -> Fp<BASE_FIELD> {
        Self::from_value(((self@ - other@) % (Self::prime() as int)) as nat)
    }
}

impl<const BASE_FIELD: bool> Mul for Fp<BASE_FIELD> {
    type Output = Fp<BASE_FIELD>;

    /// The product of two elements.
    #[inline]
    fn mul(self, other: Fp<BASE_FIELD>) -> (r: Fp<BASE_FIELD>)
        ensures
            r@ == (self@ * other@) % Self::prime(),
    {
        proof {
            use_type_invariant(&self);
            use_type_invariant(&other);
            Self::lemma_constants();
        }
        let r = Fp { repr: Self::montgomery_product(self.repr, &other.repr) };
        proof {
            lemma_montgomery_product(
                self.repr@,
                other.repr@,
                r.repr@,
                Self::prime(),
                radix_inverse(BASE_FIELD),
            );
            r.lemma_value(0);
        }
        r
    }
}

impl<const BASE_FIELD: bool> MulSpecImpl for Fp<BASE_FIELD> {
    open spec fn obeys_mul_spec() -> bool {
        true
    }

    open spec fn mul_req(self, other: Fp<BASE_FIELD>) -> bool {
        true
    }

    open spec fn mul_spec(self, other: Fp<BASE_FIELD>) -> Fp<BASE_FIELD> {
        Self::from_value((self@ * other@) % Self::prime())
    }
}

impl<const BASE_FIELD: bool> Neg for Fp<BASE_FIELD> {
    type Output = Fp<BASE_FIELD>;

    /// The negative of an element; zero is its own.
    #[inline]
    fn neg(self) -> (r: Fp<BASE_FIELD>)
        ensures
            r@ == (-(self@ as int)) % (Self::prime() as int),
    {
        proof {
            use_type_invariant(&self);
            Self::lemma_constants();
            lemma_montgomery_difference(
                0,
                self.repr@,
                Self::prime(),
                radix_inverse(BASE_FIELD),
            );
            assert(0nat * radix_inverse(BASE_FIELD) == 0);
            lemma_small_mod(0, Self::prime());
        }
        let negative = neg_mod_words(self.repr.to_words(), Self::modulus().to_words());
        let r = Fp { repr: U256::from_words(negative) };
        proof {
            r.lemma_value(0);
        }
        r
    }
}

impl<const BASE_FIELD: bool> NegSpecImpl for Fp<BASE_FIELD> {
    open spec fn obeys_neg_spec() -> bool {
        true
    }

    open spec fn neg_req(self) -> bool {
        true
    }

    open spec fn neg_spec(self) -> Fp<BASE_FIELD> {
        Self::from_value(((-(self@ as int)) % (Self::prime() as int)) as nat)
    }
}

/// The decimal digit that a character is, if it is one.
pub open spec fn digit_of(c: char) -> Option<nat> {
    if '0' <= c <= '9' {
        Some((c as nat - '0' as nat) as nat)
    } else {
        None
    }
}

/// Every character of the string is a decimal digit.
pub open spec fn is_decimal(s: Seq<char>) -> bool {
    forall|i: int| 0 <= i < s.len() ==> digit_of(#[trigger] s[i]) is Some
}

/// The number that a string of decimal digits writes; the empty string
/// writes zero.
pub open spec fn decimal_value(s: Seq<char>) -> nat
    decreases s.len(),
{
    if s.len() == 0 {
        0
    } else {
        decimal_value(s.drop_last()) * 10 + digit_of(s.last()).unwrap_or(0)
    }
}

/// One more digit: what a prefix of a string writes, from what the prefix
/// shorter by that digit writes.
proof fn lemma_decimal_step(s: Seq<char>, i: int, m: nat)
    requires
        0 <= i < s.len(),
        m > 0,
        is_decimal(s.subrange(0, i)),
        digit_of(s[i]) is Some,
    ensures
        is_decimal(s.subrange(0, i + 1)),
        decimal_value(s.subrange(0, i + 1)) % m == (((decimal_value(s.subrange(0, i)) % m) * 10)
            % m + digit_of(s[i])->Some_0) % m,
{
    let prefix = s.subrange(0, i);
    let longer = s.subrange(0, i + 1);
    assert(longer.drop_last() =~= prefix);
    assert(longer.last() == s[i]);
    assert forall|j: int| 0 <= j < longer.len() implies digit_of(#[trigger] longer[j]) is Some by {
        if j < i {
            assert(longer[j] == prefix[j]);
        }
    }
    let v = decimal_value(prefix) as int;
    let d = digit_of(s[i])->Some_0 as int;
    assert(decimal_value(longer) == v * 10 + d);
    lemma_mul_mod_noop_left(v, 10, m as int);
    lemma_add_mod_noop_right(d, v * 10, m as int);
    lemma_add_mod_noop_right(d, (v % (m as int)) * 10, m as int);
}

/// The decimal digit that a character is, if it is one.
fn decimal_digit(c: char) -> (r: Option<u8>)
    ensures
        digit_of(c) is Some <==> r is Some,
        r is Some ==> r->Some_0 == digit_of(c)->Some_0 && r->Some_0 < 10,
{
    if '0' <= c && c <= '9' {
        Some(((c as u32) - ('0' as u32)) as u8)
    } else {
        None
    }
}

impl<const BASE_FIELD: bool> Fp<BASE_FIELD> {
    /// A number whose powers run through all residues of the field but zero.
    pub open spec fn generator() -> nat {
        if BASE_FIELD {
            3
        } else {
            5
        }
    }

    /// The prime of the field is a prime, and the residues modulo it are
    /// the powers of the field's generator.
    pub proof fn lemma_prime()
        ensures
            is_prime(Self::prime()),
            is_field_modulus(Self::prime()),
            is_generator(Self::generator(), Self::prime()),
    {
        if BASE_FIELD {
            lemma_base_prime();
        } else {
            lemma_scalar_prime();
        }
        lemma_field_modulus_is_prime(Self::prime());
    }

    /// Reads a decimal number and reduces it modulo the prime. A string that
    /// holds anything but decimal digits gives nothing.
    pub fn from_str(s: &str) -> (r: Option<Self>)
        ensures
            r is Some <==> is_decimal(s@),
            r is Some ==> r->Some_0@ == decimal_value(s@) % Self::prime(),
    {
        proof {
            Self::lemma_constants();
        }
        let mut ints: Vec<Self> = Vec::new();
        let mut acc = Self::zero();
        let mut k: usize = 0;
        while k < 11
            invariant
                k <= 11,
                ints@.len() == k,
                acc@ == k,
                1 < Self::prime(),
                11 < Self::prime(),
                forall|j: int| 0 <= j < k ==> (#[trigger] ints@[j])@ == j,
            decreases 11 - k,
        {
            proof {
                lemma_small_mod((k + 1) as nat, Self::prime());
            }
            ints.push(acc);
            acc = acc + Self::one();
            k += 1;
        }

        let mut res = Self::zero();
        let len = s.unicode_len();
        let mut i: usize = 0;
        proof {
            assert(s@.subrange(0, 0) =~= Seq::<char>::empty());
            lemma_small_mod(0, Self::prime());
        }
        while i < len
            invariant
                i <= len,
                len == s@.len(),
                ints@.len() == 11,
                1 < Self::prime(),
                forall|j: int| 0 <= j < 11 ==> (#[trigger] ints@[j])@ == j,
                is_decimal(s@.subrange(0, i as int)),
                res@ == decimal_value(s@.subrange(0, i as int)) % Self::prime(),
            decreases len - i,
        {
            let c = s.get_char(i);
            match decimal_digit(c) {
                Some(d) => {
                    proof {
                        lemma_decimal_step(s@, i as int, Self::prime());
                    }
                    res = res * ints[10];
                    res = res + ints[d as usize];
                },
                None => {
                    proof {
                        if is_decimal(s@) {
                            assert(digit_of(s@[i as int]) is Some);
                        }
                    }
                    return None;
                },
            }
            i += 1;
        }
        proof {
            assert(s@.subrange(0, i as int) =~= s@);
        }

        Some(res)
    }

    /// The power of the element with the exponent `by`, by squaring and
    /// multiplying along the bits of the exponent from the most significant
    /// down.
    pub fn pow(&self, by: U256) -> (r: Self)
        ensures
            r@ == power_residue(self@, by@, Self::prime()),
    {
        let mut res = Self::one();
        let mut bits = u256_bits(&by);
        let mut n: usize = 256;
        proof {
            Self::lemma_constants();
            self.lemma_value(0);
            lemma_pow2_values();
            lemma_basic_div(by@ as int, pow2(256) as int);
            lemma_pow0(self@ as int);
            lemma_small_mod(1, Self::prime());
        }
        while n > 0
            invariant
                n <= 256,
                bits.remaining() == n,
                bits.value() == by@,
                1 < Self::prime(),
                self@ < Self::prime(),
                res@ == power_residue(self@, by@ / pow2(n as nat), Self::prime()),
            decreases n,
        {
            let ghost e = by@ / pow2(n as nat);
            n -= 1;
            proof {
                lemma_bit_of_step(by@, n as nat);
                lemma_power_residue_adds(self@, e, e, Self::prime());
                lemma_power_residue_adds(self@, 1, 2 * e, Self::prime());
                lemma_pow1(self@ as int);
                lemma_small_mod(self@, Self::prime());
                assert(e + e == 2 * e);
            }
            match bits.next() {
                Some(bit) => {
                    res = res.squared();
                    if bit {
                        res = *self * res;
                    }
                },
                None => {},
            }
        }
        proof {
            lemma_pow2_values();
            lemma_div_basics(by@ as int);
        }

        res
    }

    /// The multiplicative inverse; zero alone has none.
    pub fn inverse(self) -> (r: Option<Self>)
        ensures
            r is None <==> self@ == 0,
            r is Some ==> (self@ * r->Some_0@) % Self::prime() == 1,
    {
        if self.is_zero() {
            None
        } else {
            proof {
                use_type_invariant(&self);
                Self::lemma_constants();
                Self::lemma_prime();
                if self.repr@ == 0 {
                    assert(0nat * radix_inverse(BASE_FIELD) == 0);
                    lemma_small_mod(0, Self::prime());
                }
                lemma_small_mod(self.repr@, Self::prime());
                lemma_field_modulus_coprime(self.repr@, Self::prime());
            }
            let mut inverse = self.repr;
            mono_invert(&mut inverse, &Self::modulus());
            let repr = Self::montgomery_product(inverse, &Self::r_cubed());
            proof {
                lemma_montgomery_inverse(
                    self.repr@,
                    inverse@,
                    repr@,
                    Self::prime(),
                    radix_inverse(BASE_FIELD),
                );
            }
            Some(Fp { repr })
        }
    }
}

/// The element of the base field that is minus three quarters: the exponent
/// from which a square root is computed.
pub fn fq_minus3_div4() -> (r: Fq)
    ensures
        4 * r@ + 3 == base_prime(),
{
    let exponent = U256::from_words(
        [0x4f082305b61f3f51, 0x65e05aa45a1c72a3, 0x6e14116da0605617, 0x0c19139cb84c680a],
    );
    assert(exponent@ == 0x0c19139cb84c680a_6e14116da0605617_65e05aa45a1c72a3_4f082305b61f3f51int);
    Fq::new_mul_factor(exponent)
}

impl Fq {
    /// The square root of the element that is its power with the exponent a
    /// quarter of the prime's successor, if the element has a square root. The
    /// prime of the base field leaves the remainder three when divided by
    /// four; only therefore is that power a root wherever there is one. Zero
    /// and one are their own roots.
    pub fn sqrt(&self) -> (r: Option<Self>)
        ensures
            r is Some <==> is_quadratic_residue(self@, base_prime()),
            r is Some ==> square_residue(r->Some_0@, base_prime()) == self@,
            r is Some ==> r->Some_0@ == power_residue(
                self@,
                ((base_prime() + 1) / 4) as nat,
                base_prime(),
            ),
            self@ <= 1 ==> r is Some && r->Some_0@ == self@,
    {
        let a1 = self.pow(fq_minus3_div4().into());
        let a1a = a1 * *self;
        let a0 = a1 * (a1a);

        let mut am1 = Fq::modulus();
        am1 = U256::from_words(
            sub_mod_words(am1.to_words(), U256::one().to_words(), Fq::modulus().to_words()),
        );
        proof {
            self.lemma_value(0);
            lemma_small_mod((base_prime() - 1) as nat, base_prime());
            lemma_sqrt(self@, a1@, a1a@, a0@);
        }

        if a0 == Fq::new(am1).unwrap() {
            None
        } else {
            Some(a1a)
        }
    }
}

/// The square root by exponentiation: with `a1 = a^((p - 3) / 4)`, the
/// product `a1 * a` is `a^((p + 1) / 4)`; it squares to `a` unless
/// `a1 * a1 * a` is minus one, which it is exactly where `a` is no square.
/// Zero and one are squares, and their own roots.
proof fn lemma_sqrt(a: nat, a1: nat, a1a: nat, a0: nat)
    requires
        a < base_prime(),
        a1 == power_residue(a, ((base_prime() - 3) / 4) as nat, base_prime()),
        a1a == (a1 * a) % base_prime(),
        a0 == (a1 * a1a) % base_prime(),
    ensures
        a0 != base_prime() - 1 <==> is_quadratic_residue(a, base_prime()),
        a0 != base_prime() - 1 ==> square_residue(a1a, base_prime()) == a,
        a1a == power_residue(a, ((base_prime() + 1) / 4) as nat, base_prime()),
        a <= 1 ==> a0 != base_prime() - 1 && a1a == a,
{
    let p = base_prime();
    let pi = p as int;
    let e = ((p - 3) / 4) as nat;
    let h = ((p - 1) / 2) as nat;
    Fq::lemma_prime();
    lemma_small_mod(a, p);
    lemma_pow1(a as int);
    // a1a == a^(e + 1), a0 == a^h, a1a * a1a == a * a0
    lemma_power_residue_adds(a, e, 1, p);
    lemma_power_residue_adds(a, e, e + 1, p);
    lemma_power_residue_adds(a, e + 1, e + 1, p);
    lemma_power_residue_adds(a, 1, h, p);
    assert(e + (e + 1) == h);
    assert((e + 1) + (e + 1) == 1 + h);
    assert(a1a == power_residue(a, e + 1, p));
    assert(e + 1 == (p + 1) / 4);
    assert(a0 == power_residue(a, h, p));
    assert(square_residue(a1a, p) == (a * a0) % p);
    if a == 0 {
        assert(a1 * 0 == 0);
        assert(a1 * a1a == 0) by (nonlinear_arith)
            requires
                a1a == 0,
        ;
        assert(square_residue(0, p) == 0) by {
            assert(0nat * 0nat == 0);
        }
    } else {
        lemma_euler_criterion(3, p, h, a);
        if a == 1 {
            lemma_power_of_one(e + 1, p);
            lemma_power_of_one(h, p);
        }
        if a0 == 1 {
            assert(a * 1 == a);
            assert(square_residue(a1a, p) == a);
        }
    }
}

/// Takes four 64-bit words, least significant first, as the Montgomery form
/// of an element. The form has to be below the prime of the base field.
#[inline]
pub fn const_fq(i: [u64; 4]) -> (r: Fq)
    requires
        words4(i) < base_prime(),
    ensures
        r.raw_value() == words4(i),
{
    Fp { repr: U256::from_words(i) }
}

} // verus!
