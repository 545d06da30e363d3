//! Limb arithmetic on 256-bit integers held as two 128-bit limbs: addition
//! and subtraction with carries, shifts, multiply-accumulate, Montgomery
//! multiplication and inversion modulo an odd number.
use crate::lemmas::bits::{
    bit_of, lemma_bit_of_split, lemma_bit_of_zero_extend, lemma_limb_bit, lemma_limb_shift_by_one,
    lemma_pow2_values, with_bit,
};
use crate::lemmas::modular::{
    congruent, coprime, lemma_cancel_two, lemma_congruent_combine, lemma_congruent_iff,
    lemma_congruent_shift, lemma_coprime_basics, lemma_coprime_halve, lemma_coprime_subtract,
    lemma_coprime_symmetric,
};
use vstd::arithmetic::div_mod::*;
use vstd::arithmetic::mul::*;
use vstd::arithmetic::power2::*;
use vstd::prelude::*;

verus! {

/// 2^64, the weight of the upper half of a limb.
#[verifier::inline]
pub open spec fn half_base() -> nat {
    0x1_0000_0000_0000_0000
}

/// 2^128, the weight of the second limb.
#[verifier::inline]
pub open spec fn limb_base() -> nat {
    0x1_0000_0000_0000_0000_0000_0000_0000_0000int as nat
}

/// 2^256, the number of values a two-limb integer can take.
#[verifier::inline]
pub open spec fn wide_base() -> nat {
    0x1_0000_0000_0000_0000_0000_0000_0000_0000_0000_0000_0000_0000_0000_0000_0000_0000int as nat
}

/// The integer held by two limbs, least significant first.
pub open spec fn limbs2(a: [u128; 2]) -> nat {
    a[0] as nat + a[1] as nat * limb_base()
}

/// The integer held by four limbs, least significant first.
pub open spec fn limbs4(a: [u128; 4]) -> nat {
    a[0] as nat + a[1] as nat * limb_base() + (a[2] as nat + a[3] as nat * limb_base())
        * wide_base()
}

/// The one structural failure of the library: a byte buffer of the wrong
/// length was handed to a fixed-size deserializer.
#[derive(Debug)]
pub enum Error {
    InvalidLength { expected: usize, actual: usize },
}

/// An unsigned 256-bit integer as two 128-bit limbs, least significant first.
/// Any pair of limbs is a value; nothing is assumed about its size relative to
/// a modulus.
#[derive(Copy, Clone, Debug)]
pub struct U256(pub [u128; 2]);

impl View for U256 {
    type V = nat;

    open spec fn view(&self) -> nat {
        limbs2(self.0)
    }
}

/// The halves of a limb, by shift and mask, are its quotient and remainder by
/// 2^64.
proof fn lemma_split(i: u128)
    by (bit_vector)
    ensures
        i >> 64 == i / 0x1_0000_0000_0000_0000,
        i & 0xFFFF_FFFF_FFFF_FFFF == i % 0x1_0000_0000_0000_0000,
{
}

/// Two halves joined by shift and or make the limb `hi * 2^64 + lo`.
proof fn lemma_combine(hi: u128, lo: u128)
    by (bit_vector)
    requires
        hi < 0x1_0000_0000_0000_0000,
        lo < 0x1_0000_0000_0000_0000,
    ensures
        (hi << 64) | lo == hi * 0x1_0000_0000_0000_0000 + lo,
{
}

/// Splits a limb into its upper and lower 64-bit halves.
#[inline(always)]
pub fn split_u128(i: u128) -> (r: (u128, u128))
    ensures
        r.0 == i / 0x1_0000_0000_0000_0000,
        r.1 == i % 0x1_0000_0000_0000_0000,
        r.0 * half_base() + r.1 == i,
{
    proof {
        lemma_split(i);
    }
    (i >> 64, i & 0xFFFFFFFFFFFFFFFF)
}

/// Joins two 64-bit halves into one limb. Bits of `hi` above the 64th are
/// shifted out, and bits of `lo` above the 64th are or-ed into the upper half.
#[inline(always)]
pub fn combine_u128(hi: u128, lo: u128) -> (r: u128)
    ensures
        r == (hi << 64) | lo,
        hi < half_base() && lo < half_base() ==> r == hi * half_base() + lo,
{
    proof {
        if hi < half_base() && lo < half_base() {
            lemma_combine(hi, lo);
        }
    }
    (hi << 64) | lo
}

/// Adds two limbs and an incoming carry; the outgoing carry replaces the
/// incoming one.
#[inline]
pub fn adc(a: u128, b: u128, carry: &mut u128) -> (r: u128)
    requires
        *old(carry) <= 0xFFFF_FFFF_FFFF_FFFF_FFFF_FFFF_FFFF_FFFF - 2 * 0xFFFF_FFFF_FFFF_FFFF,
    ensures
        r + *final(carry) * limb_base() == a + b + *old(carry),
{
    let (a1, a0) = split_u128(a);
    let (b1, b0) = split_u128(b);
    let (c0, r0) = split_u128(a0 + b0 + *carry);
    let (c, r1) = split_u128(a1 + b1 + c0);
    *carry = c;

    let r = combine_u128(r1, r0);
    proof {
        assert(r == r1 * half_base() + r0);
        assert(a == a1 * half_base() + a0);
        assert(b == b1 * half_base() + b0);
        assert(c0 * half_base() + r0 == a0 + b0 + *old(carry));
        assert(c * half_base() + r1 == a1 + b1 + c0);
        assert(limb_base() == half_base() * half_base());
    }
    r
}

/// Subtracts a limb and an incoming borrow from a limb; the outgoing borrow
/// replaces the incoming one.
#[inline]
fn sbb(a: u128, b: u128, borrow: &mut u128) -> (r: u128)
    requires
        *old(borrow) <= 1,
    ensures
        *final(borrow) <= 1,
        r + b + *old(borrow) == a + *final(borrow) * limb_base(),
{
    let (a1, a0) = split_u128(a);
    let (b1, b0) = split_u128(b);
    assert((1u128 << 64) == 0x1_0000_0000_0000_0000) by (bit_vector);
    let (k0, r0) = split_u128((1 << 64) + a0 - b0 - *borrow);
    let under: u128 = if k0 == 0 { 1 } else { 0 };
    let (k1, r1) = split_u128((1 << 64) + a1 - b1 - under);

    *borrow = if k1 == 0 { 1 } else { 0 };

    let r = combine_u128(r1, r0);
    proof {
        assert(r == r1 * half_base() + r0);
        assert(a == a1 * half_base() + a0);
        assert(b == b1 * half_base() + b0);
        assert(k0 * half_base() + r0 == half_base() + a0 - b0 - *old(borrow));
        assert(k1 * half_base() + r1 == half_base() + a1 - b1 - under);
        assert(k0 <= 1 && k1 <= 1);
        assert(limb_base() == half_base() * half_base());
    }
    r
}

/// A two-digit number in base `base` determines its digits.
pub proof fn lemma_digits_unique(a0: nat, a1: nat, b0: nat, b1: nat, base: nat)
    by (nonlinear_arith)
    requires
        a0 < base,
        b0 < base,
        a0 + a1 * base == b0 + b1 * base,
    ensures
        a0 == b0,
        a1 == b1,
{
    if a1 < b1 {
        assert(a1 * base + base <= b1 * base);
    } else if b1 < a1 {
        assert(b1 * base + base <= a1 * base);
    }
}

/// The two-limb integer that holds `v`, or the low 256 bits of it.
pub open spec fn u256_of(v: nat) -> U256 {
    U256([(v % limb_base()) as u128, ((v / limb_base()) % limb_base()) as u128])
}

/// `u256_of` builds the integer that holds `v`, and rebuilds any integer from
/// what it holds.
pub proof fn lemma_u256_of(v: nat, x: U256)
    ensures
        v < wide_base() ==> u256_of(v)@ == v,
        u256_of(x@) == x,
{
    if v < wide_base() {
        let lo = v % limb_base();
        let hi = v / limb_base();
        assert(hi < limb_base());
        assert(u256_of(v).0[0] == lo && u256_of(v).0[1] == hi);
    }
    let y = u256_of(x@);
    lemma_fundamental_div_mod_converse(
        x@ as int,
        limb_base() as int,
        x.0[1] as int,
        x.0[0] as int,
    );
    assert(y.0[0] == x.0[0] && y.0[1] == x.0[1]);
    assert(y.0 =~= x.0);
}

/// Two limb pairs that hold the same integer are the same pair.
pub proof fn lemma_limbs2_injective(a: [u128; 2], b: [u128; 2])
    requires
        limbs2(a) == limbs2(b),
    ensures
        a == b,
{
    lemma_digits_unique(a[0] as nat, a[1] as nat, b[0] as nat, b[1] as nat, limb_base());
    assert(a =~= b);
}

/// Two four-limb arrays that hold the same integer are the same array.
pub proof fn lemma_limbs4_injective(a: [u128; 4], b: [u128; 4])
    requires
        limbs4(a) == limbs4(b),
    ensures
        a == b,
{
    let al = a[0] as nat + a[1] as nat * limb_base();
    let ah = a[2] as nat + a[3] as nat * limb_base();
    let bl = b[0] as nat + b[1] as nat * limb_base();
    let bh = b[2] as nat + b[3] as nat * limb_base();
    lemma_digits_unique(al, ah, bl, bh, wide_base());
    lemma_digits_unique(a[0] as nat, a[1] as nat, b[0] as nat, b[1] as nat, limb_base());
    lemma_digits_unique(a[2] as nat, a[3] as nat, b[2] as nat, b[3] as nat, limb_base());
    assert(a =~= b);
}

/// The order of two four-limb integers is decided by their most significant
/// differing limb.
pub proof fn lemma_limbs4_compare(a: [u128; 4], b: [u128; 4])
    ensures
        a[3] < b[3] ==> limbs4(a) < limbs4(b),
        a[3] == b[3] && a[2] < b[2] ==> limbs4(a) < limbs4(b),
        a[3] == b[3] && a[2] == b[2] && a[1] < b[1] ==> limbs4(a) < limbs4(b),
        a[3] == b[3] && a[2] == b[2] && a[1] == b[1] && a[0] < b[0] ==> limbs4(a) < limbs4(b),
        a[3] == b[3] && a[2] == b[2] && a[1] == b[1] && a[0] == b[0] ==> limbs4(a) == limbs4(b),
{
    let al = a[0] as nat + a[1] as nat * limb_base();
    let bl = b[0] as nat + b[1] as nat * limb_base();
    assert(al < wide_base() && bl < wide_base());
}

impl U256 {
    /// The integer zero.
    pub fn zero() -> (r: U256)
        ensures
            r@ == 0,
    {
        let a: [u128; 2] = [0, 0];
        U256(a)
    }

    /// The integer one.
    pub fn one() -> (r: U256)
        ensures
            r@ == 1,
    {
        let a: [u128; 2] = [1, 0];
        U256(a)
    }

    /// Widens a 32-bit integer.
    pub fn from_u32(n: u32) -> (r: U256)
        ensures
            r@ == n,
    {
        let a: [u128; 2] = [n as u128, 0];
        U256(a)
    }

    /// Builds the integer from four 64-bit words, least significant first.
    pub fn from_words(words: [u64; 4]) -> (r: U256)
        ensures
            r@ == words4(words),
    {
        U256(from_word_vec(&words))
    }

    /// The four 64-bit words of the integer, least significant first.
    pub fn to_words(&self) -> (r: [u64; 4])
        ensures
            words4(r) == self@,
            r[0] == self.0[0] % 0x1_0000_0000_0000_0000,
            r[1] == self.0[0] / 0x1_0000_0000_0000_0000,
            r[2] == self.0[1] % 0x1_0000_0000_0000_0000,
            r[3] == self.0[1] / 0x1_0000_0000_0000_0000,
    {
        to_word_vec(&self.0)
    }
}

/// The integer held by four 64-bit words, least significant first.
pub open spec fn words4(d: [u64; 4]) -> nat {
    d[0] as nat + d[1] as nat * half_base() + (d[2] as nat + d[3] as nat * half_base())
        * limb_base()
}

/// The two 64-bit words of a limb are its remainder and quotient by 2^64.
proof fn lemma_word_halves(x: u128)
    by (bit_vector)
    ensures
        (x as u64) as u128 == x % 0x1_0000_0000_0000_0000,
        ((x >> 64) as u64) as u128 == x / 0x1_0000_0000_0000_0000,
{
}

/// The limb that two 64-bit words make, the first the upper half.
pub proof fn lemma_word_join(hi: u64, lo: u64)
    by (bit_vector)
    ensures
        (hi as u128) << 64 | (lo as u128) == (hi as u128) * 0x1_0000_0000_0000_0000 + (lo as u128),
{
}

/// Splits two 128-bit limbs into four 64-bit words, least significant first.
#[inline]
pub fn to_word_vec(a: &[u128; 2]) -> (r: [u64; 4])
    ensures
        words4(r) == limbs2(*a),
        r[0] == a[0] % 0x1_0000_0000_0000_0000,
        r[1] == a[0] / 0x1_0000_0000_0000_0000,
        r[2] == a[1] % 0x1_0000_0000_0000_0000,
        r[3] == a[1] / 0x1_0000_0000_0000_0000,
{
    proof {
        lemma_word_halves(a[0]);
        lemma_word_halves(a[1]);
    }
    [
        #[verifier::truncate] (a[0] as u64),
        (a[0] >> 64) as u64,
        #[verifier::truncate] (a[1] as u64),
        (a[1] >> 64) as u64,
    ]
}

/// Joins four 64-bit words, least significant first, into two 128-bit limbs.
#[inline]
pub fn from_word_vec(d: &[u64; 4]) -> (r: [u128; 2])
    ensures
        limbs2(r) == words4(*d),
{
    proof {
        lemma_word_join(d[1], d[0]);
        lemma_word_join(d[3], d[2]);
    }
    let mut a = [0u128;2];
    a[0] = (d[1] as u128) << 64 | d[0] as u128;
    a[1] = (d[3] as u128) << 64 | d[2] as u128;
    a
}

/// Adds `b` into `inp_a`. The sum has to fit in 256 bits.
#[inline]
pub fn add_nocarry(inp_a: &mut U256, b: &U256)
    requires
        old(inp_a)@ + b@ < wide_base(),
    ensures
        final(inp_a)@ == old(inp_a)@ + b@,
{
    let mut carry: u128 = 0;
    let r0 = adc(inp_a.0[0], b.0[0], &mut carry);
    let ghost c0 = carry;
    let r1 = adc(inp_a.0[1], b.0[1], &mut carry);
    let a: [u128; 2] = [r0, r1];
    proof {
        assert(r0 + c0 * limb_base() == old(inp_a).0[0] + b.0[0]);
        assert(r1 + carry * limb_base() == old(inp_a).0[1] + b.0[1] + c0);
        assert(limb_base() * limb_base() == wide_base());
        let (x0, x1) = (old(inp_a).0[0] as int, old(inp_a).0[1] as int);
        let (y0, y1) = (b.0[0] as int, b.0[1] as int);
        let base = limb_base() as int;
        assert(r0 + r1 * base + carry * (base * base) == x0 + x1 * base + (y0 + y1 * base))
            by (nonlinear_arith)
            requires
                r0 + c0 * base == x0 + y0,
                r1 + carry * base == x1 + y1 + c0,
        ;
        assert(carry == 0);
    }
    *inp_a = U256(a);
}

/// Subtracts `b` from the two limbs `a`. `b` must not exceed `a`.
#[inline]
pub fn sub_noborrow_raw(a: &mut [u128; 2], b: &[u128; 2])
    requires
        limbs2(*b) <= limbs2(*old(a)),
    ensures
        limbs2(*final(a)) == limbs2(*old(a)) - limbs2(*b),
{
    let mut borrow: u128 = 0;
    let r0 = sbb(a[0], b[0], &mut borrow);
    let ghost k0 = borrow;
    let r1 = sbb(a[1], b[1], &mut borrow);
    proof {
        assert(limb_base() * limb_base() == wide_base());
        let (x0, x1) = (old(a)[0] as int, old(a)[1] as int);
        let (y0, y1) = (b[0] as int, b[1] as int);
        let base = limb_base() as int;
        assert(r0 + r1 * base + (y0 + y1 * base) == x0 + x1 * base + borrow * (base * base))
            by (nonlinear_arith)
            requires
                r0 + y0 == x0 + k0 * base,
                r1 + y1 + k0 == x1 + borrow * base,
        ;
        assert(borrow == 0);
    }
    a[0] = r0;
    a[1] = r1;
}

/// Subtracts `b` from `inp_a`. `b` must not exceed `inp_a`.
#[inline]
pub fn sub_noborrow(inp_a: &mut U256, b: &U256)
    requires
        b@ <= old(inp_a)@,
    ensures
        final(inp_a)@ == old(inp_a)@ - b@,
{
    let mut a = inp_a.0;
    sub_noborrow_raw(&mut a, &b.0);
    *inp_a = U256(a);
}

/// Halves the integer, dropping its lowest bit.
#[inline]
pub fn div2(inp: &mut U256)
    ensures
        final(inp)@ == old(inp)@ / 2,
{
    let mut a = inp.0;
    proof {
        lemma_limb_shift_by_one(a[0], a[1]);
        lemma_limb_shift_by_one(a[1], a[0]);
    }
    let tmp = a[1] << 127;
    a[1] >>= 1;
    a[0] >>= 1;
    a[0] |= tmp;
    *inp = U256(a);
}

/// Doubles the integer, dropping the bit that leaves the 256th position.
#[inline]
pub fn mul2(inp: &mut U256)
    ensures
        final(inp)@ == (2 * old(inp)@) % wide_base(),
        2 * old(inp)@ < wide_base() ==> final(inp)@ == 2 * old(inp)@,
{
    let mut a = inp.0;
    proof {
        lemma_limb_shift_by_one(a[0], a[1]);
        lemma_limb_shift_by_one(a[1], a[0]);
    }
    let tmp = a[0] >> 127;
    a[0] <<= 1;
    a[1] <<= 1;
    a[1] |= tmp;
    proof {
        let top = old(inp).0[1] as nat / 0x8000_0000_0000_0000_0000_0000_0000_0000;
        assert(limbs2(a) + top * wide_base() == 2 * old(inp)@);
        lemma_fundamental_div_mod_converse(
            (2 * old(inp)@) as int,
            wide_base() as int,
            top as int,
            limbs2(a) as int,
        );
    }
    *inp = U256(a);
}

/// Bit `index` of the integer, counted from the least significant bit; none
/// from position 256 on.
#[inline]
pub fn u256_get_bit(data: &U256, index: usize) -> (r: Option<bool>)
    ensures
        index >= 256 ==> r.is_none(),
        index < 256 ==> r == Some(bit_of(data@, index as nat)),
{
    if index >= 256 {
        None
    } else {
        let part = index / 128;
        let bit = index - (128 * part);
        proof {
            lemma_pow2_values();
            lemma_limb_bit(data.0[part as int], bit as u128);
            lemma_bit_of_split(data.0[0] as nat, data.0[1] as nat, 128, index as nat);
            lemma_bit_of_zero_extend(data.0[1] as nat, bit as nat);
        }
        Some(data.0[part] & (1 << bit) > 0)
    }
}

/// Forces bit `n` of the integer to `to`. Positions from 256 on do not exist:
/// the integer is left as it is and `false` is returned.
#[inline]
pub fn u256_set_bit(data: &mut U256, n: usize, to: bool) -> (r: bool)
    ensures
        r == (n < 256),
        n < 256 ==> final(data)@ == with_bit(old(data)@, n as nat, to),
        n >= 256 ==> *final(data) == *old(data),
{
    if n >= 256 {
        false
    } else {
        let mut p_data = data.0;
        let part = n / 128;
        let bit = n - (128 * part);
        proof {
            lemma_pow2_values();
            lemma_limb_bit(p_data[part as int], bit as u128);
            lemma_bit_of_split(p_data[0] as nat, p_data[1] as nat, 128, n as nat);
            lemma_bit_of_zero_extend(p_data[1] as nat, bit as nat);
            if part == 1 {
                lemma_pow2_adds(128, bit as nat);
            }
        }
        if to {
            p_data[part] |= 1 << bit;
        } else {
            p_data[part] &= !(1 << bit);
        }
        *data = U256(p_data);

        true
    }
}

/// Whether the integer is even.
pub fn u256_is_even(data: &U256) -> (r: bool)
    ensures
        r == (data@ % 2 == 0),
{
    proof {
        lemma_limb_shift_by_one(data.0[0], data.0[1]);
    }
    data.0[0] & 1 == 0
}

/// Subtraction modulo `modulo`: the modulus is added first where `other`
/// exceeds `oprand`.
#[inline]
pub fn u256_sub_mod(oprand: &mut U256, other: &U256, modulo: &U256)
    requires
        old(oprand)@ < other@ ==> other@ <= old(oprand)@ + modulo@ < wide_base(),
    ensures
        final(oprand)@ == if old(oprand)@ < other@ {
            old(oprand)@ + modulo@ - other@
        } else {
            old(oprand)@ - other@
        },
        old(oprand)@ < modulo@ && other@ < modulo@ ==> final(oprand)@ == (old(oprand)@ - other@)
            % (modulo@ as int),
{
    proof {
        let d = old(oprand)@ - other@;
        if old(oprand)@ < modulo@ && other@ < modulo@ {
            if d < 0 {
                lemma_fundamental_div_mod_converse(
                    d,
                    modulo@ as int,
                    -1,
                    d + modulo@,
                );
            } else {
                lemma_small_mod(d as nat, modulo@);
            }
        }
    }
    if *oprand < *other {
        add_nocarry(oprand, modulo);
    }
    sub_noborrow(oprand, other);
}

/// Addition modulo `modulo`: the modulus is subtracted once where the sum
/// reaches it. The sum itself has to fit in 256 bits.
#[inline]
pub fn u256_add_mod(oprand: &mut U256, other: &U256, modulo: &U256)
    requires
        old(oprand)@ + other@ < wide_base(),
    ensures
        final(oprand)@ == if old(oprand)@ + other@ >= modulo@ {
            old(oprand)@ + other@ - modulo@
        } else {
            (old(oprand)@ + other@) as int
        },
        old(oprand)@ + other@ < 2 * modulo@ ==> final(oprand)@ == (old(oprand)@ + other@)
            % modulo@,
{
    proof {
        let s = old(oprand)@ + other@;
        if s < 2 * modulo@ {
            if s >= modulo@ {
                lemma_fundamental_div_mod_converse(
                    s as int,
                    modulo@ as int,
                    1,
                    s - modulo@,
                );
            } else {
                lemma_small_mod(s, modulo@);
            }
        }
    }
    add_nocarry(oprand, other);

    if *oprand >= *modulo {
        sub_noborrow(oprand, modulo);
    }
}

/// Negation modulo `modulo`; zero stays zero.
#[inline]
pub fn u256_neg_mod(oprand: &mut U256, modulo: &U256)
    requires
        old(oprand)@ <= modulo@,
    ensures
        final(oprand)@ == if old(oprand)@ > 0 {
            modulo@ - old(oprand)@
        } else {
            0int
        },
        old(oprand)@ < modulo@ ==> final(oprand)@ == (-(old(oprand)@ as int)) % (modulo@ as int),
{
    proof {
        let a = old(oprand)@ as int;
        if a < modulo@ {
            if a > 0 {
                lemma_fundamental_div_mod_converse(
                    -a,
                    modulo@ as int,
                    -1,
                    modulo@ - a,
                );
            } else {
                lemma_small_mod(0, modulo@);
            }
        }
    }
    if *oprand > U256::zero() {
        let mut tmp = *modulo;
        sub_noborrow(&mut tmp, oprand);

        *oprand = tmp;
    }
}

/// The weight of limb `i` of a four-limb integer.
pub open spec fn limb_weight(i: nat) -> nat {
    if i == 0 {
        1
    } else if i == 1 {
        limb_base()
    } else if i == 2 {
        wide_base()
    } else {
        limb_base() * wide_base()
    }
}

/// The product of two halves fits in a limb.
proof fn lemma_half_product(x: u128, y: u128)
    by (nonlinear_arith)
    requires
        x < half_base(),
        y < half_base(),
    ensures
        x * y <= 0xFFFF_FFFF_FFFF_FFFE_0000_0000_0000_0001,
{
    assert(x * y <= 0xFFFF_FFFF_FFFF_FFFF * 0xFFFF_FFFF_FFFF_FFFF);
}

/// The product of two numbers written in halves, as the sum of the four
/// products of their halves.
proof fn lemma_product_of_halves(b1: int, b0: int, c1: int, c0: int, h: int)
    ensures
        (b1 * h + b0) * (c1 * h + c0) == (b1 * c1) * (h * h) + (b1 * c0 + b0 * c1) * h + b0 * c0,
{
    let b = b1 * h + b0;
    assert(b * (c1 * h + c0) == b * (c1 * h) + b * c0) by (nonlinear_arith);
    assert(b * (c1 * h) == (b1 * h) * (c1 * h) + b0 * (c1 * h)) by (nonlinear_arith)
        requires
            b == b1 * h + b0,
    ;
    assert(b * c0 == (b1 * h) * c0 + b0 * c0) by (nonlinear_arith)
        requires
            b == b1 * h + b0,
    ;
    assert((b1 * h) * (c1 * h) == (b1 * c1) * (h * h)) by (nonlinear_arith);
    assert(b0 * (c1 * h) == (b0 * c1) * h) by (nonlinear_arith);
    assert((b1 * h) * c0 == (b1 * c0) * h) by (nonlinear_arith);
    assert((b1 * c0 + b0 * c1) * h == (b1 * c0) * h + (b0 * c1) * h) by (nonlinear_arith);
}

/// What the four partial products and their carries add up to: the low limb
/// and the high limb of `a + b * c + k`.
proof fn lemma_mac_identity(
    a1: int, a0: int, b1: int, b0: int, c1: int, c0: int, k1: int, k0: int,
    x1: int, x0: int, y1: int, y0: int, z1: int, z0: int, r1: int, r0: int,
)
    requires
        x1 * half_base() + x0 == b0 * c0 + a0 + k0,
        y1 * half_base() + y0 == b0 * c1,
        z1 * half_base() + z0 == b1 * c0,
        r1 * half_base() + r0 == x1 + y0 + z0 + a1 + k1,
    ensures
        (r0 * half_base() + x0) + (b1 * c1 + r1 + y1 + z1) * limb_base() == (a1 * half_base()
            + a0) + (b1 * half_base() + b0) * (c1 * half_base() + c0) + (k1 * half_base() + k0),
{
    lemma_product_of_halves(b1, b0, c1, c0, half_base() as int);
    let p11 = b1 * c1;
    let p10 = b1 * c0;
    let p01 = b0 * c1;
    let p00 = b0 * c0;
    assert((b1 * half_base() + b0) * (c1 * half_base() + c0) == p11 * limb_base() + (p10 + p01)
        * half_base() + p00);
    assert((y1 * half_base() + y0 + z1 * half_base() + z0) * half_base() == y1 * limb_base() + y0
        * half_base() + z1 * limb_base() + z0 * half_base());
    assert((r1 * half_base() + r0) * half_base() == r1 * limb_base() + r0 * half_base());
    assert((x1 + y0 + z0 + a1 + k1) * half_base() == x1 * half_base() + y0 * half_base() + z0
        * half_base() + a1 * half_base() + k1 * half_base());
}

/// The high limb of `a + b * c + k` fits in a limb.
proof fn lemma_mac_bound(a: int, b: int, c: int, k: int, r: int, s: int, base: int)
    by (nonlinear_arith)
    requires
        0 <= a < base,
        0 <= b < base,
        0 <= c < base,
        0 <= k < base,
        0 <= r,
        r + s * base == a + b * c + k,
    ensures
        s < base,
{
    assert(b * c <= (base - 1) * (base - 1));
    if s >= base {
        assert(s * base >= base * base);
    }
}

/// One limb of a multiply-accumulate: `a + b * c + carry`, the low limb
/// returned and the high limb left in `carry`.
#[inline]
fn mac_with_carry(a: u128, b: u128, c: u128, carry: &mut u128) -> (r: u128)
    ensures
        r + *final(carry) * limb_base() == a + b * c + *old(carry),
{
    let (b_hi, b_lo) = split_u128(b);
    let (c_hi, c_lo) = split_u128(c);

    let (a_hi, a_lo) = split_u128(a);
    let (carry_hi, carry_lo) = split_u128(*carry);
    proof {
        lemma_half_product(b_lo, c_lo);
        lemma_half_product(b_lo, c_hi);
        lemma_half_product(b_hi, c_lo);
        lemma_half_product(b_hi, c_hi);
    }
    let (x_hi, x_lo) = split_u128(b_lo * c_lo + a_lo + carry_lo);
    let (y_hi, y_lo) = split_u128(b_lo * c_hi);
    let (z_hi, z_lo) = split_u128(b_hi * c_lo);
    let (r_hi, r_lo) = split_u128((x_hi + y_lo) + (z_lo + a_hi) + carry_hi);
    let r = combine_u128(r_lo, x_lo);
    proof {
        lemma_mac_identity(
            a_hi as int, a_lo as int, b_hi as int, b_lo as int, c_hi as int, c_lo as int,
            carry_hi as int, carry_lo as int, x_hi as int, x_lo as int, y_hi as int, y_lo as int,
            z_hi as int, z_lo as int, r_hi as int, r_lo as int,
        );
        let s = b_hi * c_hi + r_hi + y_hi + z_hi;
        assert(r + s * limb_base() == a + b * c + *old(carry));
        lemma_mac_bound(a as int, b as int, c as int, *old(carry) as int, r as int, s,
            limb_base() as int);
    }

    *carry = (b_hi * c_hi) + r_hi + y_hi + z_hi;

    r
}

/// Adds a carry into one limb; the carry out of the limb replaces it.
#[inline]
pub(crate) fn add_carry(a: u128, carry: &mut u128) -> (r: u128)
    ensures
        r + *final(carry) * limb_base() == a + *old(carry),
        *final(carry) <= 1,
{
    let (a_hi, a_lo) = split_u128(a);
    let (carry_hi, carry_lo) = split_u128(*carry);
    let (x_hi, x_lo) = split_u128(a_lo + carry_lo);
    let (r_hi, r_lo) = split_u128(x_hi + a_hi + carry_hi);

    *carry = r_hi;

    combine_u128(r_lo, x_lo)
}

/// The limb-wise sums of a multiply-accumulate, read as one sum of four-limb
/// integers.
proof fn lemma_mac_digit_total(
    a0: int, a1: int, a2: int, a3: int, n0: int, n1: int, n2: int, n3: int,
    from: int, b0: int, b1: int, c: int, k: int,
)
    by (nonlinear_arith)
    requires
        0 <= from <= 2,
        from == 0 ==> n0 + n1 * limb_base() + n2 * wide_base() + n3 * (limb_base() * wide_base())
            + k * (wide_base() * wide_base()) == a0 + b0 * c + (a1 + b1 * c) * limb_base() + a2
            * wide_base() + a3 * (limb_base() * wide_base()),
        from == 1 ==> n0 == a0 && n1 + n2 * limb_base() + n3 * wide_base() + k * (limb_base()
            * wide_base()) == a1 + b0 * c + (a2 + b1 * c) * limb_base() + a3 * wide_base(),
        from == 2 ==> n0 == a0 && n1 == a1 && n2 + n3 * limb_base() + k * wide_base() == a2 + b0
            * c + (a3 + b1 * c) * limb_base(),
    ensures
        n0 + n1 * limb_base() + (n2 + n3 * limb_base()) * wide_base() + k * (wide_base()
            * wide_base()) == a0 + a1 * limb_base() + (a2 + a3 * limb_base()) * wide_base() + (b0
            + b1 * limb_base()) * c * limb_weight(from as nat),
{
}

/// Multiplies the two-limb `b` by the limb `c` and adds the product into the
/// four-limb accumulator, `from_index` limbs up. The sum has to fit in the
/// accumulator.
#[inline(always)]
pub fn mac_digit(from_index: usize, acc: &mut [u128; 4], b: &[u128; 2], c: u128)
    requires
        from_index <= 2,
        limbs4(*old(acc)) + limbs2(*b) * c * limb_weight(from_index as nat) < wide_base()
            * wide_base(),
    ensures
        limbs4(*final(acc)) == limbs4(*old(acc)) + limbs2(*b) * c * limb_weight(from_index as nat),
{
    if c == 0 {
        assert(limbs2(*b) * c * limb_weight(from_index as nat) == 0) by (nonlinear_arith)
            requires
                c == 0,
        ;
        return ;
    }
    let mut carry: u128 = 0;

    let n0 = mac_with_carry(acc[from_index], b[0], c, &mut carry);
    let ghost k0 = carry;
    let n1 = mac_with_carry(acc[from_index + 1], b[1], c, &mut carry);
    let ghost k1 = carry;
    acc[from_index] = n0;
    acc[from_index + 1] = n1;
    if from_index + 2 < 4 {
        let n2 = add_carry(acc[from_index + 2], &mut carry);
        acc[from_index + 2] = n2;
    }
    let ghost k2 = carry;
    if from_index + 3 < 4 {
        let n3 = add_carry(acc[from_index + 3], &mut carry);
        acc[from_index + 3] = n3;
    }
    proof {
        let o = *old(acc);
        let n = *acc;
        let lb = limb_base() as int;
        if from_index == 0 {
            assert(n[0] + n[1] * lb + n[2] * (lb * lb) + n[3] * (lb * lb * lb) + carry * (lb * lb
                * lb * lb) == o[0] + b[0] * c + (o[1] + b[1] * c) * lb + o[2] * (lb * lb) + o[3]
                * (lb * lb * lb)) by (nonlinear_arith)
                requires
                    n[0] + k0 * lb == o[0] + b[0] * c,
                    n[1] + k1 * lb == o[1] + b[1] * c + k0,
                    n[2] + k2 * lb == o[2] + k1,
                    n[3] + carry * lb == o[3] + k2,
            ;
        } else if from_index == 1 {
            assert(n[1] + n[2] * lb + n[3] * (lb * lb) + carry * (lb * lb * lb) == o[1] + b[0] * c
                + (o[2] + b[1] * c) * lb + o[3] * (lb * lb)) by (nonlinear_arith)
                requires
                    n[1] + k0 * lb == o[1] + b[0] * c,
                    n[2] + k1 * lb == o[2] + b[1] * c + k0,
                    n[3] + carry * lb == o[3] + k1,
            ;
        } else {
            assert(n[2] + n[3] * lb + carry * (lb * lb) == o[2] + b[0] * c + (o[3] + b[1] * c)
                * lb) by (nonlinear_arith)
                requires
                    n[2] + k0 * lb == o[2] + b[0] * c,
                    n[3] + carry * lb == o[3] + b[1] * c + k0,
            ;
        }
        assert(lb * lb == wide_base());
        assert(lb * lb * lb == limb_base() * wide_base());
        assert(lb * lb * lb * lb == wide_base() * wide_base());
        lemma_mac_digit_total(
            o[0] as int, o[1] as int, o[2] as int, o[3] as int, n[0] as int, n[1] as int,
            n[2] as int, n[3] as int, from_index as int, b[0] as int, b[1] as int, c as int,
            carry as int,
        );
        assert(carry == 0) by (nonlinear_arith)
            requires
                limbs4(n) + carry * (wide_base() * wide_base()) < wide_base() * wide_base(),
                carry >= 0,
        ;
    }
}

/// `inv` is the Montgomery constant of the modulus `m`: the negated inverse of
/// `m` modulo 2^128. Only an odd modulus has one.
pub open spec fn is_montgomery_inv(m: nat, inv: u128) -> bool {
    (inv as nat * (m % limb_base())) % limb_base() == limb_base() - 1
}

/// `t` is the Montgomery quotient of `x` by `m`: the exact quotient
/// `(x + k * m) / 2^256` for a `k` below 2^256.
pub open spec fn is_montgomery_quotient(x: nat, m: nat, t: nat) -> bool {
    exists|k: nat| k < wide_base() && #[trigger] (k * m) + x == t * wide_base()
}

/// Adding `k = inv * x mod 2^128` times the modulus to `x` clears the lowest
/// limb of `x`.
proof fn lemma_clear_low_limb(x: int, m: int, inv: int, k: int)
    requires
        (inv * (m % (limb_base() as int))) % (limb_base() as int) == limb_base() - 1,
        k == (inv * (x % (limb_base() as int))) % (limb_base() as int),
    ensures
        (x + m * k) % (limb_base() as int) == 0,
{
    let b = limb_base() as int;
    let x0 = x % b;
    let m0 = m % b;
    // m0 * k == m0 * inv * x0 == (b - 1) * x0 (mod b)
    lemma_mul_mod_noop_right(m0, inv * x0, b);
    assert(m0 * (inv * x0) == (inv * m0) * x0) by (nonlinear_arith);
    lemma_mul_mod_noop_left(inv * m0, x0, b);
    assert((m0 * k) % b == ((b - 1) * x0) % b);
    // x + m * k == x0 + m0 * k == x0 + (b - 1) * x0 == 0 (mod b)
    lemma_mul_mod_noop_left(m, k, b);
    lemma_add_mod_noop(x, m * k, b);
    lemma_add_mod_noop(x0, (b - 1) * x0, b);
    lemma_mod_twice(x, b);
    assert(x0 + (b - 1) * x0 == x0 * b) by (nonlinear_arith);
    lemma_mod_multiples_basic(x0, b);
}

/// The partial sums of a Montgomery multiplication, limb by limb, and that
/// each of them fits in four limbs.
proof fn lemma_schoolbook_bounds(a0: int, a1: int, b: int, m: int, k0: int, k1: int)
    by (nonlinear_arith)
    requires
        0 <= a0 < limb_base(),
        0 <= a1 < limb_base(),
        0 <= b < wide_base(),
        0 <= k0 < limb_base(),
        0 <= k1 < limb_base(),
        0 < m,
        (a0 + a1 * limb_base()) * b + wide_base() * m <= wide_base() * wide_base(),
    ensures
        b * a0 * 1 + b * a1 * limb_base() == (a0 + a1 * limb_base()) * b,
        0 <= b * a0 * 1 <= (a0 + a1 * limb_base()) * b,
        (a0 + a1 * limb_base()) * b + m * k0 * 1 + m * k1 * limb_base() == (a0 + a1
            * limb_base()) * b + (k0 + k1 * limb_base()) * m,
        m * k0 * 1 + m * k1 * limb_base() < wide_base() * m,
        0 <= m * k0 * 1,
        0 <= m * k1 * limb_base(),
{
    assert(b * a0 * 1 + b * a1 * limb_base() == (a0 + a1 * limb_base()) * b);
    assert(0 <= b * a1 * limb_base());
    assert(m * k0 * 1 + m * k1 * limb_base() == (k0 + k1 * limb_base()) * m);
    assert((k0 + k1 * limb_base()) * m < wide_base() * m);
}

/// The digits of a four-limb integer, read off by division.
proof fn lemma_limbs4_digits(n: [u128; 4])
    ensures
        limbs4(n) % limb_base() == n[0],
        (limbs4(n) / limb_base()) % limb_base() == n[1],
        limbs4(n) / wide_base() == n[2] + n[3] * limb_base(),
        limbs4(n) % wide_base() == n[0] + n[1] * limb_base(),
{
    let lb = limb_base() as int;
    let v = limbs4(n) as int;
    let hi = n[2] + n[3] * lb;
    let up = n[1] + hi * lb;
    assert(v == up * lb + n[0]);
    lemma_fundamental_div_mod_converse(v, lb, up, n[0] as int);
    lemma_fundamental_div_mod_converse(up, lb, hi, n[1] as int);
    lemma_fundamental_div_mod_converse(v, wide_base() as int, hi, n[0] + n[1] * lb);
}

/// The two reduction rounds together: each adds the multiple of the modulus
/// that clears one more low limb, so that the sum is a multiple of 2^256.
proof fn lemma_reduction_rounds(v2: int, m: int, inv: int, k0: int, k1: int, v3: int, v4: int)
    requires
        (inv * (m % (limb_base() as int))) % (limb_base() as int) == limb_base() - 1,
        k0 == (inv * (v2 % (limb_base() as int))) % (limb_base() as int),
        v3 == v2 + m * k0 * 1,
        k1 == (inv * ((v3 / (limb_base() as int)) % (limb_base() as int))) % (limb_base() as int),
        v4 == v3 + m * k1 * limb_base(),
    ensures
        v4 % (wide_base() as int) == 0,
        v4 == (k0 + k1 * limb_base()) * m + v2,
{
    let lb = limb_base() as int;
    lemma_clear_low_limb(v2, m, inv, k0);
    assert(m * k0 * 1 == m * k0) by (nonlinear_arith);
    let w3 = v3 / lb;
    assert(v3 == w3 * lb);
    lemma_clear_low_limb(w3, m, inv, k1);
    let w4 = w3 + m * k1;
    assert(v4 == w4 * lb) by (nonlinear_arith)
        requires
            v4 == v3 + m * k1 * lb,
            v3 == w3 * lb,
            w4 == w3 + m * k1,
    ;
    let t = w4 / lb;
    assert(w4 == t * lb);
    assert(v4 == t * wide_base()) by (nonlinear_arith)
        requires
            v4 == w4 * lb,
            w4 == t * lb,
            lb * lb == wide_base(),
    ;
    lemma_mod_multiples_basic(t, wide_base() as int);
    assert(v4 == (k0 + k1 * lb) * m + v2) by (nonlinear_arith)
        requires
            v4 == v3 + m * k1 * lb,
            v3 == v2 + m * k0 * 1,
    ;
}

/// Montgomery multiplication without the final subtraction: the product of
/// `this` and `by` is formed in a four-limb accumulator, then each of its two
/// low limbs is cleared by adding a multiple of the modulus; the two high limbs
/// are the result.
#[inline]
pub fn mul_reduce(this: &mut [u128; 2], by: &[u128; 2], modulus: &[u128; 2], inv: u128)
    requires
        is_montgomery_inv(limbs2(*modulus), inv),
        limbs2(*old(this)) * limbs2(*by) + wide_base() * limbs2(*modulus) <= wide_base()
            * wide_base(),
    ensures
        is_montgomery_quotient(
            limbs2(*old(this)) * limbs2(*by),
            limbs2(*modulus),
            limbs2(*final(this)),
        ),
        limbs2(*old(this)) * limbs2(*by) < wide_base() * limbs2(*modulus) ==> limbs2(*final(this))
            < 2 * limbs2(*modulus),
{
    let ghost a = limbs2(*this) as int;
    let ghost b = limbs2(*by) as int;
    let ghost m = limbs2(*modulus) as int;
    proof {
        lemma_montgomery_inv_odd(m as nat, inv);
        lemma_schoolbook_bounds(this[0] as int, this[1] as int, b, m, 0, 0);
    }
    let mut res: [u128; 4] = [0;4];
    mac_digit(0, &mut res, by, this[0]);
    mac_digit(1, &mut res, by, this[1]);

    let k0 = inv.wrapping_mul(res[0]);
    let ghost v2 = limbs4(res) as int;
    proof {
        lemma_schoolbook_bounds(this[0] as int, this[1] as int, b, m, k0 as int, 0);
        lemma_limbs4_digits(res);
    }
    mac_digit(0, &mut res, modulus, k0);

    let k1 = inv.wrapping_mul(res[1]);
    let ghost v3 = limbs4(res) as int;
    proof {
        lemma_schoolbook_bounds(this[0] as int, this[1] as int, b, m, k0 as int, k1 as int);
        lemma_limbs4_digits(res);
    }
    mac_digit(1, &mut res, modulus, k1);
    proof {
        let v4 = limbs4(res) as int;
        lemma_reduction_rounds(v2, m, inv as int, k0 as int, k1 as int, v3, v4);
        lemma_limbs4_digits(res);
        let k = (k0 + k1 * limb_base()) as nat;
        let t = res[2] as nat + res[3] as nat * limb_base();
        assert(k < wide_base());
        assert(v4 == t * wide_base());
        assert(k * (m as nat) == (k0 + k1 * limb_base()) * m);
        assert(k * (m as nat) + (a * b) as nat == t * wide_base());
        lemma_montgomery_quotient(limbs2(*old(this)), limbs2(*by), m as nat, t, t);
    }

    this[0] = res[2];
    this[1] = res[3];
}

/// A modulus with a Montgomery constant is odd.
pub proof fn lemma_montgomery_inv_odd(m: nat, inv: u128)
    requires
        is_montgomery_inv(m, inv),
    ensures
        m % 2 == 1,
{
    let lb = limb_base() as int;
    let m0 = (m % limb_base()) as int;
    if m % 2 == 0 {
        assert(m0 % 2 == 0);
        let h = m0 / 2;
        assert(inv * m0 == (inv * h) * 2) by (nonlinear_arith)
            requires
                m0 == h * 2,
        ;
        let p = inv * h;
        assert(((p * 2) % lb) % 2 == 0);
    }
}

/// Montgomery multiplication: `oprand` becomes the product of `oprand` and
/// `other` divided by 2^256, modulo `modulo`. The Montgomery quotient is
/// brought below the modulus by one subtraction, which suffices whenever the
/// product of the operands is below 2^256 times the modulus.
pub fn mono_mul(oprand: &mut U256, other: &U256, modulo: &U256, inv: u128)
    requires
        is_montgomery_inv(modulo@, inv),
        old(oprand)@ * other@ + wide_base() * modulo@ <= wide_base() * wide_base(),
    ensures
        exists|t: nat| #[trigger]
            is_montgomery_quotient(old(oprand)@ * other@, modulo@, t) && final(oprand)@ == (if t
                >= modulo@ {
                t - modulo@
            } else {
                t as int
            }),
        (final(oprand)@ * wide_base()) % modulo@ == (old(oprand)@ * other@) % modulo@,
        old(oprand)@ * other@ < wide_base() * modulo@ ==> final(oprand)@ < modulo@,
{
    let mut p_oprand = oprand.0;

    mul_reduce(&mut p_oprand, &other.0, &modulo.0, inv);
    let ghost t = limbs2(p_oprand);

    if U256(p_oprand) >= *modulo {
        sub_noborrow_raw(&mut p_oprand, &modulo.0);
    }
    proof {
        lemma_montgomery_inv_odd(modulo@, inv);
        lemma_montgomery_quotient(old(oprand)@, other@, modulo@, t, limbs2(p_oprand));
    }

    *oprand = U256(p_oprand);
}

/// A Montgomery quotient `t` of `a * b` is below twice the modulus where
/// `a * b` is below 2^256 times the modulus; whether or not the modulus is
/// subtracted from it once, it is congruent to `a * b / 2^256`, and with the
/// subtraction where `t` has reached the modulus it is below the modulus.
pub proof fn lemma_montgomery_quotient(a: nat, b: nat, m: nat, t: nat, r: nat)
    requires
        m > 0,
        is_montgomery_quotient(a * b, m, t),
        r == t || (t >= m && r == t - m),
    ensures
        (r * wide_base()) % m == (a * b) % m,
        a * b < wide_base() * m ==> t < 2 * m,
{
    let k = choose|k: nat| k < wide_base() && #[trigger] (k * m) + a * b == t * wide_base();
    let w = wide_base() as int;
    let mi = m as int;
    lemma_mod_multiples_vanish(k as int, (a * b) as int, mi);
    assert(mi * k == k * m) by (nonlinear_arith)
        requires
            mi == m,
    ;
    assert((t * wide_base()) % m == (a * b) % m);
    if r != t {
        assert(r * w == t * w + (-w) * mi) by (nonlinear_arith)
            requires
                r == t - mi,
        ;
        lemma_mod_multiples_vanish(-w, t * w, mi);
        assert(mi * (-w) == (-w) * mi) by (nonlinear_arith);
    }
    if a * b < wide_base() * m {
        assert(t < 2 * m) by (nonlinear_arith)
            requires
                k * m + a * b == t * w,
                k < w,
                a * b < w * m,
                w > 0,
                m > 0,
        {
            assert(k * m < w * m);
            if t >= 2 * m {
                assert(t * w >= 2 * m * w);
            }
        }
    }
}

/// Halving a value together with its coefficient keeps `coeff * a` congruent
/// to the value: an odd coefficient is made even by adding the modulus first.
proof fn lemma_halving_step(u: int, b: int, a: int, m: int, u2: int, b2: int)
    requires
        m % 2 == 1,
        0 <= b < m,
        0 <= u,
        u % 2 == 0,
        congruent(b * a, u, m),
        u2 == u / 2,
        b2 == (if b % 2 == 0 {
            b / 2
        } else {
            (b + m) / 2
        }),
    ensures
        0 <= b2 < m,
        congruent(b2 * a, u2, m),
{
    let mi = m;
    let k: int = if b % 2 == 0 {
        0
    } else {
        1
    };
    assert(2 * b2 == b + k * m);
    // 2 * (b2 * a - u2) == (b * a - u) + k * a * m
    assert(2 * (b2 * a - u2) == (b * a - u) + (k * a) * mi) by (nonlinear_arith)
        requires
            2 * b2 == b + k * m,
            2 * u2 == u,
            mi == m,
    ;
    lemma_congruent_shift(b * a, u, k * a, mi);
    assert((b * a + (k * a) * mi) - u == 2 * (b2 * a - u2));
    lemma_cancel_two(b2 * a - u2, mi);
}

/// Subtracting one value/coefficient pair from the other keeps `coeff * a`
/// congruent to the value.
proof fn lemma_subtracting_step(u: int, b: int, v: int, c: int, a: int, m: int, b2: int)
    requires
        m > 0,
        congruent(b * a, u, m),
        congruent(c * a, v, m),
        b2 == (if b < c {
            b + m - c
        } else {
            b - c
        }),
    ensures
        congruent(b2 * a, u - v, m),
{
    let mi = m;
    let k: int = if b < c {
        1
    } else {
        0
    };
    lemma_congruent_combine(b * a, u, c * a, v, mi);
    lemma_congruent_shift(b * a - c * a, u - v, k * a, mi);
    assert(b2 * a == b * a - c * a + (k * a) * mi) by (nonlinear_arith)
        requires
            b2 == b - c + k * m,
            mi == m,
    ;
}

/// Binary extended Euclidean inversion: `oprand` becomes its inverse modulo
/// `modulo`.
///
/// Two value/coefficient pairs start as (`oprand`, 1) and (`modulo`, 0). An even
/// value is halved together with its coefficient; once both values are odd the
/// smaller pair is subtracted from the larger; this is repeated until a value
/// is one, whose coefficient is the inverse. The operand has to be coprime to
/// the modulus: otherwise no value ever becomes one.
pub fn mono_invert(oprand: &mut U256, modulo: &U256)
    requires
        modulo@ % 2 == 1,
        1 < modulo@ <= wide_base() / 2,
        0 < old(oprand)@,
        coprime(old(oprand)@, modulo@),
    ensures
        final(oprand)@ < modulo@,
        (final(oprand)@ * old(oprand)@) % modulo@ == 1,
{
    let ghost a = oprand@ as int;
    let ghost m = modulo@ as int;
    let mut u = *oprand;
    let mut v = *modulo;
    let mut b = U256::one();
    let mut c = U256::zero();
    proof {
        assert(congruent(1 * a, a, m)) by {
            lemma_small_mod(0, m as nat);
        }
        assert(congruent(0 * a, m, m)) by {
            lemma_mod_multiples_basic(-1, m);
        }
    }

    while u != U256::one() && v != U256::one()
        invariant
            m == modulo@,
            m % 2 == 1,
            1 < m <= wide_base() / 2,
            0 < u@,
            0 < v@,
            coprime(u@, v@),
            b@ < m,
            c@ < m,
            congruent(b@ * a, u@ as int, m),
            congruent(c@ * a, v@ as int, m),
        decreases u@ + v@,
    {
        let ghost u_start = u@;
        let ghost v_start = v@;
        proof {
            lemma_coprime_basics(u@, v@);
        }
        while u256_is_even(&u)
            invariant
                m == modulo@,
                m % 2 == 1,
                1 < m <= wide_base() / 2,
                0 < u@ <= u_start,
                u@ == u_start || u_start % 2 == 0,
                v@ == v_start,
                coprime(u@, v@),
                b@ < m,
                congruent(b@ * a, u@ as int, m),
            decreases u@,
        {
            let ghost u_old = u@;
            let ghost b_old = b@;
            proof {
                lemma_coprime_halve(u@, v@);
            }
            div2(&mut u);

            if u256_is_even(&b) {
                div2(&mut b);
            } else {
                add_nocarry(&mut b, modulo);
                div2(&mut b);
            }
            proof {
                lemma_halving_step(u_old as int, b_old as int, a, m, u@ as int, b@ as int);
            }
        }
        while u256_is_even(&v)
            invariant
                m == modulo@,
                m % 2 == 1,
                1 < m <= wide_base() / 2,
                0 < v@ <= v_start,
                v@ == v_start || v_start % 2 == 0,
                coprime(u@, v@),
                c@ < m,
                congruent(c@ * a, v@ as int, m),
            decreases v@,
        {
            let ghost v_old = v@;
            let ghost c_old = c@;
            proof {
                lemma_coprime_symmetric(u@, v@);
                lemma_coprime_halve(v@, u@);
                lemma_coprime_symmetric(v@ / 2, u@);
            }
            div2(&mut v);

            if u256_is_even(&c) {
                div2(&mut c);
            } else {
                add_nocarry(&mut c, modulo);
                div2(&mut c);
            }
            proof {
                lemma_halving_step(v_old as int, c_old as int, a, m, v@ as int, c@ as int);
            }
        }

        proof {
            lemma_coprime_basics(u@, v@);
            assert(u@ != v@);
        }
        let ghost u_mid = u@;
        let ghost v_mid = v@;
        let ghost b_mid = b@;
        let ghost c_mid = c@;
        if u >= v {
            sub_noborrow(&mut u, &v);
            u256_sub_mod(&mut b, &c, modulo);
            proof {
                lemma_coprime_subtract(u_mid, v_mid);
                lemma_subtracting_step(
                    u_mid as int,
                    b_mid as int,
                    v_mid as int,
                    c_mid as int,
                    a,
                    m,
                    b@ as int,
                );
            }
        } else {
            sub_noborrow(&mut v, &u);
            u256_sub_mod(&mut c, &b, modulo);
            proof {
                lemma_coprime_symmetric(u_mid, v_mid);
                lemma_coprime_subtract(v_mid, u_mid);
                lemma_coprime_symmetric((v_mid - u_mid) as nat, u_mid);
                lemma_subtracting_step(
                    v_mid as int,
                    c_mid as int,
                    u_mid as int,
                    b_mid as int,
                    a,
                    m,
                    c@ as int,
                );
            }
        }
    }

    proof {
        if u@ == 1 {
            lemma_congruent_iff(b@ * a, 1, m);
        } else {
            lemma_congruent_iff(c@ * a, 1, m);
        }
        lemma_small_mod(1, m as nat);
    }
    if u == U256::one() {
        *oprand = b;
    } else {
        *oprand = c;
    }
}

/// Bit `i` of a byte, by shift and mask.
proof fn lemma_byte_bit(b: u8, i: u8)
    by (bit_vector)
    requires
        i < 8,
    ensures
        ((b >> i) & 1 == 1) == ((b >> i) % 2 == 1),
{
}

/// The bits of a byte string, each byte's least significant bit first.
pub open spec fn bits_le(bytes: Seq<u8>) -> Seq<bool> {
    Seq::new(8 * bytes.len(), |k: int| bit_of(bytes[k / 8] as nat, (k % 8) as nat))
}

/// Spreads bytes into bits, each byte's least significant bit first.
#[inline]
pub fn bytes_to_bits_le(bytes: &[u8]) -> (bits: Vec<bool>)
    requires
        bytes@.len() * 8 <= usize::MAX,
    ensures
        bits@ == bits_le(bytes@),
{
    let mut bits: Vec<bool> = Vec::with_capacity(bytes.len() * 8);
    let mut j: usize = 0;
    while j < bytes.len()
        invariant
            j <= bytes@.len(),
            bytes@.len() * 8 <= usize::MAX,
            bits@.len() == 8 * j,
            forall|k: int|
                0 <= k < bits@.len() ==> #[trigger] bits@[k] == bit_of(
                    bytes@[k / 8] as nat,
                    (k % 8) as nat,
                ),
        decreases bytes@.len() - j,
    {
        let byte = bytes[j];
        let mut i: u8 = 0;
        while i < 8
            invariant
                i <= 8,
                j < bytes@.len(),
                bytes@.len() * 8 <= usize::MAX,
                byte == bytes@[j as int],
                bits@.len() == 8 * j + i,
                forall|k: int|
                    0 <= k < bits@.len() ==> #[trigger] bits@[k] == bit_of(
                        bytes@[k / 8] as nat,
                        (k % 8) as nat,
                    ),
            decreases 8 - i,
        {
            proof {
                lemma_byte_bit(byte, i);
                vstd::bits::lemma_u8_shr_is_div(byte, i);
            }
            // Check if the i-th bit is set
            let bit = (byte >> i) & 1 == 1;
            bits.push(bit);
            i += 1;
        }
        j += 1;
    }
    proof {
        assert(bits@ =~= bits_le(bytes@));
    }
    bits
}

/// The bits of a 256-bit integer, handed out from the most significant down.
pub struct BitIterator<'a> {
    source: &'a U256,
    n: usize,
}

/// Starts a walk over all 256 bits of `source`.
pub fn u256_bits(source: &U256) -> (r: BitIterator<'_>)
    ensures
        r.value() == source@,
        r.remaining() == 256,
{
    BitIterator { source, n: 256 }
}

impl<'a> BitIterator<'a> {
    #[verifier::type_invariant]
    spec fn in_range(self) -> bool {
        self.n <= 256
    }

    /// The integer whose bits are handed out.
    pub closed spec fn value(self) -> nat {
        self.source@
    }

    /// How many bits are still to come; the next one is at this position less
    /// one.
    pub closed spec fn remaining(self) -> nat {
        self.n as nat
    }

    /// The next bit down, or none once bit 0 has been handed out.
    pub fn next(&mut self) -> (r: Option<bool>)
        ensures
            final(self).value() == old(self).value(),
            old(self).remaining() == 0 ==> r.is_none() && final(self).remaining() == 0,
            old(self).remaining() > 0 ==> final(self).remaining() == old(self).remaining() - 1
                && r == Some(bit_of(old(self).value(), final(self).remaining())),
            old(self).remaining() <= 256,
    {
        proof {
            use_type_invariant(&*self);
        }
        if self.n == 0 {
            None
        } else {
            self.n -= 1;

            u256_get_bit(self.source, self.n)
        }
    }
}

} // verus!
