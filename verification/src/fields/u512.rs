//! A 512-bit integer: the intermediate through which wide inputs are reduced
//! into a field, and the width of a full product.
use crate::arith::{
    adc, add_carry, half_base, lemma_word_join, limb_base, limbs2, limbs4, mac_digit, mul2,
    sub_noborrow_raw, u256_set_bit, wide_base, Error, U256,
};
use crate::lemmas::bits::{
    bit_of, lemma_bit_of_split, lemma_bit_of_step, lemma_limb_bit, lemma_pow2_values,
};
use crate::wrappers::{be_value, read_u128_be};
use vstd::arithmetic::div_mod::*;
use vstd::arithmetic::mul::*;
use vstd::arithmetic::power2::*;
use vstd::prelude::*;
use vstd::slice::slice_subrange;

verus! {

/// 512-bit, stack allocated biginteger for use in extension
/// field serialization and scalar interpretation.
#[derive(Copy, Clone, Debug)]
pub struct U512(pub [u128; 4]);

impl View for U512 {
    type V = nat;

    open spec fn view(&self) -> nat {
        limbs4(self.0)
    }
}

/// The integer held by eight 64-bit words, least significant first.
pub open spec fn words8(d: [u64; 8]) -> nat {
    (d[0] as nat + d[1] as nat * half_base()) + (d[2] as nat + d[3] as nat * half_base())
        * limb_base() + ((d[4] as nat + d[5] as nat * half_base()) + (d[6] as nat + d[7] as nat
        * half_base()) * limb_base()) * wide_base()
}

/// The limb that two 64-bit words make, the first the upper half.
pub open spec fn join_words(hi: u64, lo: u64) -> u128 {
    (hi as u128) << 64 | (lo as u128)
}

/// The 512-bit integer whose limbs are made of eight 64-bit words, least
/// significant first.
pub open spec fn from_words8(d: [u64; 8]) -> U512 {
    U512(
        [
            join_words(d[1], d[0]),
            join_words(d[3], d[2]),
            join_words(d[5], d[4]),
            join_words(d[7], d[6]),
        ],
    )
}

impl From<[u64; 8]> for U512 {
    /// Builds the integer from eight 64-bit words, least significant first.
    fn from(d: [u64; 8]) -> (r: U512)
        ensures
            r@ == words8(d),
    {
        proof {
            lemma_word_join(d[1], d[0]);
            lemma_word_join(d[3], d[2]);
            lemma_word_join(d[5], d[4]);
            lemma_word_join(d[7], d[6]);
        }
        let mut a = [0u128;4];
        a[0] = (d[1] as u128) << 64 | d[0] as u128;
        a[1] = (d[3] as u128) << 64 | d[2] as u128;
        a[2] = (d[5] as u128) << 64 | d[4] as u128;
        a[3] = (d[7] as u128) << 64 | d[6] as u128;
        proof {
            assert(a =~= from_words8(d).0);
        }
        U512(a)
    }
}

impl vstd::std_specs::convert::FromSpecImpl<[u64; 8]> for U512 {
    open spec fn obeys_from_spec() -> bool {
        true
    }

    open spec fn from_spec(d: [u64; 8]) -> U512 {
        from_words8(d)
    }
}

/// A byte string that is the concatenation of two holds the first part's
/// integer shifted up by the second part's width, plus the second part's.
pub proof fn lemma_be_value_concat(a: Seq<u8>, b: Seq<u8>)
    ensures
        be_value(a + b) == be_value(a) * pow2(8 * b.len()) + be_value(b),
        be_value(b) < pow2(8 * b.len()),
    decreases b.len(),
{
    lemma2_to64();
    if b.len() == 0 {
        assert(a + b =~= a);
        assert(be_value(a) * pow2(0) == be_value(a)) by (nonlinear_arith)
            requires
                pow2(0) == 1,
        ;
    } else {
        let b0 = b.drop_last();
        lemma_be_value_concat(a, b0);
        assert((a + b).drop_last() =~= a + b0);
        lemma_pow2_adds(8 * b0.len(), 8);
        assert(8 * b0.len() + 8 == 8 * b.len());
        let w = pow2(8 * b0.len());
        let x = be_value(a);
        let p = pow2(8 * b.len());
        assert(p == w * 256);
        assert(x * p == (x * w) * 256) by (nonlinear_arith)
            requires
                p == w * 256,
        ;
        assert((a + b).last() == b.last());
        assert(be_value(a + b) == be_value(a + b0) * 256 + b.last());
        assert(be_value(b) == be_value(b0) * 256 + b.last());
        assert(be_value(a + b0) * 256 == (x * w) * 256 + be_value(b0) * 256);
    }
}

impl U512 {
    /// Reads 64 bytes, most significant first. Any other length is an error
    /// that reports the length wanted and the length given.
    pub fn from_slice(s: &[u8]) -> (r: Result<U512, Error>)
        ensures
            s@.len() == 64 ==> r is Ok && r->Ok_0@ == be_value(s@),
            s@.len() != 64 ==> r == Err::<U512, Error>(
                Error::InvalidLength { expected: 64, actual: s@.len() as usize },
            ),
    {
        if s.len() != 64 {
            return Err(Error::InvalidLength { expected: 64, actual: s.len() });
        }
        Ok(read_limbs(s))
    }

    /// Reads a 64-byte buffer, most significant byte first.
    pub fn interpret(buf: &[u8; 64]) -> (r: U512)
        ensures
            r@ == be_value(buf@),
    {
        read_limbs(buf.as_slice())
    }

    /// Bit `n` of the integer, counted from the least significant bit; none
    /// from position 512 on.
    pub fn get_bit(&self, n: usize) -> (r: Option<bool>)
        ensures
            n >= 512 ==> r.is_none(),
            n < 512 ==> r == Some(bit_of(self@, n as nat)),
    {
        if n >= 512 {
            None
        } else {
            let part = n / 128;
            let bit = n - (128 * part);
            proof {
                lemma_limbs4_bit(self.0, n as nat);
                lemma_limb_bit(self.0[part as int], bit as u128);
            }
            Some(self.0[part] & (1 << bit) > 0)
        }
    }
}

/// Bit `n` of a four-limb integer is bit `n % 128` of limb `n / 128`.
pub proof fn lemma_limbs4_bit(a: [u128; 4], n: nat)
    requires
        n < 512,
    ensures
        bit_of(limbs4(a), n) == bit_of(a[(n / 128) as int] as nat, n % 128),
{
    lemma_pow2_values();
    let lo = limbs2([a[0], a[1]]);
    let hi = limbs2([a[2], a[3]]);
    assert(limbs4(a) == lo + hi * pow2(256));
    lemma_bit_of_split(lo, hi, 256, n);
    if n < 256 {
        lemma_bit_of_split(a[0] as nat, a[1] as nat, 128, n);
    } else {
        lemma_bit_of_split(a[2] as nat, a[3] as nat, 128, (n - 256) as nat);
    }
}

/// The four limbs of a 64-byte string read most significant byte first.
fn read_limbs(s: &[u8]) -> (r: U512)
    requires
        s@.len() == 64,
    ensures
        r@ == be_value(s@),
{
    let mut n: [u128; 4] = [0;4];
    n[3] = read_u128_be(s);
    n[2] = read_u128_be(slice_subrange(s, 16, 64));
    n[1] = read_u128_be(slice_subrange(s, 32, 64));
    n[0] = read_u128_be(slice_subrange(s, 48, 64));
    proof {
        let b3 = s@.subrange(0, 16);
        let b2 = s@.subrange(16, 32);
        let b1 = s@.subrange(32, 48);
        let b0 = s@.subrange(48, 64);
        assert(s@.subrange(16, 64).subrange(0, 16) =~= b2);
        assert(s@.subrange(32, 64).subrange(0, 16) =~= b1);
        assert(s@.subrange(48, 64).subrange(0, 16) =~= b0);
        assert(s@ =~= ((b3 + b2) + b1) + b0);
        lemma_be_value_concat(b3, b2);
        lemma_be_value_concat(b3 + b2, b1);
        lemma_be_value_concat((b3 + b2) + b1, b0);
        lemma_be_value_concat(Seq::<u8>::empty(), b3);
        lemma_pow2_values();
        assert(pow2(8 * b0.len()) == limb_base());
        assert(pow2(8 * b1.len()) == limb_base());
        assert(pow2(8 * b2.len()) == limb_base());
        let (v3, v2, v1, v0) = (be_value(b3), be_value(b2), be_value(b1), be_value(b0));
        assert(be_value(s@) == ((v3 * limb_base() + v2) * limb_base() + v1) * limb_base() + v0);
        assert(n[3] == v3 && n[2] == v2 && n[1] == v1 && n[0] == v0);
    }
    U512(n)
}

/// The limb-wise sums of adding a two-limb integer into a four-limb one, read
/// as one sum.
proof fn lemma_widening_sum(
    p: [u128; 4], n: [u128; 4], c0: [u128; 2], k0: int, k1: int, k2: int, k3: int,
)
    requires
        n[0] + k0 * limb_base() == p[0] + c0[0],
        n[1] + k1 * limb_base() == p[1] + c0[1] + k0,
        n[2] + k2 * limb_base() == p[2] + k1,
        n[3] + k3 * limb_base() == p[3] + k2,
    ensures
        limbs4(n) + k3 * (wide_base() * wide_base()) == limbs4(p) + limbs2(c0),
{
    let lb = limb_base() as int;
    let (n0, n1, n2, n3) = (n[0] as int, n[1] as int, n[2] as int, n[3] as int);
    let (p0, p1, p2, p3) = (p[0] as int, p[1] as int, p[2] as int, p[3] as int);
    let (c00, c01) = (c0[0] as int, c0[1] as int);
    assert(n0 + n1 * lb + n2 * (lb * lb) + n3 * (lb * lb * lb) + k3 * (lb * lb * lb * lb) == p0
        + p1 * lb + p2 * (lb * lb) + p3 * (lb * lb * lb) + c00 + c01 * lb) by (nonlinear_arith)
        requires
            n0 + k0 * lb == p0 + c00,
            n1 + k1 * lb == p1 + c01 + k0,
            n2 + k2 * lb == p2 + k1,
            n3 + k3 * lb == p3 + k2,
    ;
    assert(lb * lb == wide_base());
    assert(lb * lb * lb == limb_base() * wide_base());
    assert(lb * lb * lb * lb == wide_base() * wide_base());
}

/// A product of two 256-bit integers and a 256-bit addend fit in 512 bits.
proof fn lemma_widening_bound(c1: nat, c0: nat, m: nat)
    by (nonlinear_arith)
    requires
        c1 < wide_base(),
        c0 < wide_base(),
        m < wide_base(),
    ensures
        c1 * m + c0 < wide_base() * wide_base(),
{
    assert(c1 * m <= (wide_base() - 1) * (wide_base() - 1));
}

impl U512 {
    /// Multiplies c1 by modulo, adds c0.
    pub fn new(c1: &U256, c0: &U256, modulo: &U256) -> (r: U512)
        ensures
            r@ == c1@ * modulo@ + c0@,
    {
        let mut res: [u128; 4] = [0;4];
        proof {
            lemma_widening_bound(c1@, c0@, modulo@);
            assert(modulo@ * c1.0[0] * 1 + modulo@ * c1.0[1] * limb_base() == c1@ * modulo@
                && modulo@ * c1.0[1] * limb_base() >= 0) by (nonlinear_arith)
                requires
                    c1@ == c1.0[0] + c1.0[1] * limb_base(),
            ;
        }
        mac_digit(0, &mut res, &modulo.0, c1.0[0]);
        mac_digit(1, &mut res, &modulo.0, c1.0[1]);
        let ghost product = res;

        let mut carry: u128 = 0;
        let n0 = adc(res[0], c0.0[0], &mut carry);
        let ghost k0 = carry;
        let n1 = adc(res[1], c0.0[1], &mut carry);
        let ghost k1 = carry;
        assert(k1 <= 1) by {
            assert(n1 + k1 * limb_base() == product[1] + c0.0[1] + k0);
            assert(k0 <= 1);
        }
        let n2 = add_carry(res[2], &mut carry);
        let ghost k2 = carry;
        let n3 = add_carry(res[3], &mut carry);
        res[0] = n0;
        res[1] = n1;
        res[2] = n2;
        res[3] = n3;
        proof {
            lemma_widening_sum(product, res, c0.0, k0 as int, k1 as int, k2 as int, carry as int);
            assert(carry == 0);
        }

        U512(res)
    }

    /// Divides self by modulo, returning remainder and, if
    /// possible, a quotient smaller than the modulus.
    ///
    /// This is binary long division over the 512 bit positions, from the most
    /// significant down: the running remainder is doubled, takes in the next
    /// bit, and gives up the modulus wherever it has reached it, which sets
    /// that bit of the quotient. The modulus must leave the top bit of its 256
    /// free, so that the doubled remainder fits.
    pub fn divrem(&self, modulo: &U256) -> (r: (Option<U256>, U256))
        requires
            0 < modulo@ <= wide_base() / 2,
        ensures
            r.1@ == self@ % modulo@,
            r.1@ < modulo@,
            r.0 is Some <==> self@ / modulo@ < modulo@,
            r.0 is Some ==> r.0->Some_0@ == self@ / modulo@,
            r.0 is Some ==> r.0->Some_0@ * modulo@ + r.1@ == self@,
            self@ / modulo@ >= wide_base() ==> r.0 is None,
    {
        let mut q = Some(U256::zero());
        let mut r = U256::zero();
        let ghost n = self@;
        let ghost m = modulo@;
        proof {
            lemma_pow2_values();
            lemma_basic_div(n as int, pow2(512) as int);
            assert(0nat * pow2(512) == 0);
        }

        let mut i: usize = 512;
        while i > 0
            invariant
                i <= 512,
                n == self@,
                m == modulo@,
                0 < m <= wide_base() / 2,
                r@ == (n / pow2(i as nat)) % m,
                partial_quotient(n, m, i as nat) < wide_base() ==> q is Some && q->Some_0@
                    == partial_quotient(n, m, i as nat),
                partial_quotient(n, m, i as nat) >= wide_base() ==> q is None,
            decreases i,
        {
            let ghost q_old = q;
            let ghost r_old = r@;
            i -= 1;
            // NB: modulo's first two bits are always unset
            // so this will never destroy information
            mul2(&mut r);
            let bit = self.get_bit(i).unwrap();
            proof {
                lemma_pow2_values();
                assert(!bit_of(r@, 0));
            }
            let stored = u256_set_bit(&mut r, 0, bit);
            let ghost r_in = r@;
            let mut q_bit = false;
            if r >= *modulo {
                let mut r_limbs = r.0;
                sub_noborrow_raw(&mut r_limbs, &modulo.0);
                r = U256(r_limbs);
                q_bit = true;

                if let Some(mut quotient) = q {
                    proof {
                        lemma_partial_quotient_bit(n, m, i as nat);
                    }
                    if u256_set_bit(&mut quotient, i, true) {
                        q = Some(quotient);
                    } else {
                        q = None;
                    }
                }
            }
            proof {
                lemma_divrem_step(n, m, i as nat, r_old, r@, q_bit);
                if i > 256 {
                    lemma_pow2_strictly_increases(256, i as nat);
                }
            }
        }

        proof {
            lemma_pow2_values();
            assert(partial_quotient(n, m, 0) == n / m);
            lemma_fundamental_div_mod(n as int, m as int);
            lemma_mul_is_commutative((n / m) as int, m as int);
            lemma_mod_bound(n as int, m as int);
        }
        match q {
            Some(quotient) => {
                if quotient >= *modulo {
                    (None, r)
                } else {
                    (q, r)
                }
            },
            None => (q, r),
        }
    }
}

/// The quotient bits found once the positions from `i` up have been worked
/// through, each at its place.
pub open spec fn partial_quotient(n: nat, m: nat, i: nat) -> nat {
    ((n / pow2(i)) / m) * pow2(i)
}

/// The partial quotient of the positions above `i` has no bit at `i`.
proof fn lemma_partial_quotient_bit(n: nat, m: nat, i: nat)
    requires
        m > 0,
    ensures
        !bit_of(partial_quotient(n, m, i + 1), i),
        partial_quotient(n, m, i + 1) < pow2(i) ==> partial_quotient(n, m, i + 1) == 0,
{
    let q = (n / pow2(i + 1)) / m;
    lemma_pow2_unfold(i + 1);
    lemma_pow2_pos(i);
    assert(q * pow2(i + 1) == (2 * q) * pow2(i)) by (nonlinear_arith)
        requires
            pow2(i + 1) == 2 * pow2(i),
    ;
    assert(partial_quotient(n, m, i + 1) == (2 * q) * pow2(i));
    lemma_div_by_multiple((2 * q) as int, pow2(i) as int);
    if q > 0 {
        assert((2 * q) * pow2(i) >= pow2(i)) by (nonlinear_arith)
            requires
                q > 0,
        ;
    } else {
        assert((2 * q) * pow2(i) == 0) by (nonlinear_arith)
            requires
                q == 0,
        ;
    }
}

/// One position of the long division: from the remainder and quotient of the
/// bits above position `i` to those of the bits from `i` up.
proof fn lemma_divrem_step(n: nat, m: nat, i: nat, r_old: nat, r_new: nat, q_bit: bool)
    requires
        m > 0,
        r_old == (n / pow2(i + 1)) % m,
        ({
            let r_in = 2 * r_old + (if bit_of(n, i) {
                1nat
            } else {
                0nat
            });
            &&& q_bit == (r_in >= m)
            &&& r_new == (if q_bit {
                r_in - m
            } else {
                r_in as int
            })
        }),
    ensures
        r_new == (n / pow2(i)) % m,
        partial_quotient(n, m, i) == partial_quotient(n, m, i + 1) + (if q_bit {
            pow2(i)
        } else {
            0nat
        }),
{
    let hi = n / pow2(i + 1);
    let q = hi / m;
    let b: nat = if bit_of(n, i) {
        1
    } else {
        0
    };
    let k: nat = if q_bit {
        1
    } else {
        0
    };
    lemma_bit_of_step(n, i);
    lemma_fundamental_div_mod(hi as int, m as int);
    let h = n / pow2(i);
    let mq = (m as int) * ((hi as int) / (m as int));
    assert(mq == m * q) by (nonlinear_arith)
        requires
            mq == (m as int) * ((hi as int) / (m as int)),
            q == (hi as int) / (m as int),
    ;
    assert(h == (2 * q + k) * m + r_new) by (nonlinear_arith)
        requires
            h == 2 * hi + b,
            hi == m * q + r_old,
            r_new == 2 * r_old + b - k * m,
    ;
    lemma_fundamental_div_mod_converse(h as int, m as int, (2 * q + k) as int, r_new as int);
    lemma_pow2_unfold(i + 1);
    assert((2 * q + k) * pow2(i) == q * pow2(i + 1) + k * pow2(i)) by (nonlinear_arith)
        requires
            pow2(i + 1) == 2 * pow2(i),
    ;
}

} // verus!
