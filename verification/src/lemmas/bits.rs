//! Bits of natural numbers and of 128-bit limbs.
use vstd::arithmetic::div_mod::*;
use vstd::arithmetic::mul::*;
use vstd::arithmetic::power2::*;
use vstd::prelude::*;

verus! {

/// Bit `n` of `v`, counted from the least significant bit.
pub open spec fn bit_of(v: nat, n: nat) -> bool {
    (v / pow2(n)) % 2 == 1
}

/// `v` with bit `n` forced to `to`.
pub open spec fn with_bit(v: nat, n: nat, to: bool) -> nat {
    if bit_of(v, n) == to {
        v
    } else if to {
        v + pow2(n)
    } else {
        (v - pow2(n)) as nat
    }
}

/// The powers of two that delimit halves, limbs and multi-limb integers.
pub proof fn lemma_pow2_values()
    ensures
        pow2(0) == 1,
        pow2(1) == 2,
        pow2(64) == 0x1_0000_0000_0000_0000,
        pow2(127) == 0x8000_0000_0000_0000_0000_0000_0000_0000,
        pow2(128) == 0x1_0000_0000_0000_0000_0000_0000_0000_0000int,
        pow2(255) == 0x8000_0000_0000_0000_0000_0000_0000_0000_0000_0000_0000_0000_0000_0000_0000_0000int,
        pow2(256) == 0x1_0000_0000_0000_0000_0000_0000_0000_0000_0000_0000_0000_0000_0000_0000_0000_0000int,
        pow2(384) == pow2(128) * pow2(256),
        pow2(512) == pow2(256) * pow2(256),
{
    lemma2_to64();
    lemma2_to64_rest();
    lemma_pow2_adds(63, 64);
    lemma_pow2_adds(64, 64);
    lemma_pow2_adds(127, 128);
    lemma_pow2_adds(128, 128);
    lemma_pow2_adds(128, 256);
    lemma_pow2_adds(256, 256);
    let h = pow2(64);
    let l = pow2(128);
    assert(pow2(127) == pow2(63) * h);
    assert(l == h * h);
    assert(pow2(255) == pow2(127) * l);
    assert(pow2(256) == l * l);
    assert(pow2(127) == 0x8000_0000_0000_0000 * 0x1_0000_0000_0000_0000);
    assert(l == 0x1_0000_0000_0000_0000int * 0x1_0000_0000_0000_0000int);
    assert(pow2(255) == 0x8000_0000_0000_0000_0000_0000_0000_0000int
        * 0x1_0000_0000_0000_0000_0000_0000_0000_0000int);
    assert(pow2(256) == 0x1_0000_0000_0000_0000_0000_0000_0000_0000int
        * 0x1_0000_0000_0000_0000_0000_0000_0000_0000int);
}

/// A one shifted one position further is doubled.
proof fn lemma_shl_one_step(b: u128)
    by (bit_vector)
    requires
        b < 127,
    ensures
        1u128 << (b + 1) as u128 == 2 * (1u128 << b),
        1u128 << b <= 0x4000_0000_0000_0000_0000_0000_0000_0000,
        1u128 << 0 == 1,
{
}

/// A one shifted to position `b` of a limb is the `b`-th power of two.
pub proof fn lemma_shl_one(b: u128)
    requires
        b < 128,
    ensures
        1u128 << b == pow2(b as nat),
    decreases b,
{
    if b == 0 {
        lemma_shl_one_step(0);
        lemma_pow2_values();
    } else {
        let p = (b - 1) as u128;
        lemma_shl_one(p);
        lemma_shl_one_step(p);
        lemma_pow2_unfold(b as nat);
    }
}

/// Testing, setting and clearing one bit of a limb with a mask.
proof fn lemma_limb_mask_facts(x: u128, b: u128)
    by (bit_vector)
    requires
        b < 128,
    ensures
        (x & (1u128 << b) > 0) == ((x >> b) % 2 == 1),
        x & (1u128 << b) > 0 ==> x | (1u128 << b) == x,
        x & (1u128 << b) > 0 ==> x & !(1u128 << b) == x - (1u128 << b),
        !(x & (1u128 << b) > 0) ==> x | (1u128 << b) == x + (1u128 << b),
        !(x & (1u128 << b) > 0) ==> x & !(1u128 << b) == x,
{
}

/// Testing, setting and clearing one bit of a limb with a mask, in terms of
/// the limb's value.
pub proof fn lemma_limb_bit(x: u128, b: u128)
    requires
        b < 128,
    ensures
        (x & (1u128 << b) > 0) == bit_of(x as nat, b as nat),
        (x | (1u128 << b)) as nat == with_bit(x as nat, b as nat, true),
        (x & !(1u128 << b)) as nat == with_bit(x as nat, b as nat, false),
        bit_of(x as nat, b as nat) ==> x >= pow2(b as nat),
{
    lemma_limb_mask_facts(x, b);
    lemma_shl_one(b);
    vstd::bits::lemma_u128_shr_is_div(x, b);
}

/// Doubling and halving across limb boundaries: the bit that leaves one limb
/// and the bits that stay.
pub proof fn lemma_limb_shift_by_one(x: u128, y: u128)
    by (bit_vector)
    ensures
        x >> 127 == x / 0x8000_0000_0000_0000_0000_0000_0000_0000,
        x << 1 == (x % 0x8000_0000_0000_0000_0000_0000_0000_0000) * 2,
        (x << 1) | (y >> 127) == (x << 1) + (y >> 127),
        x >> 1 == x / 2,
        x << 127 == (x % 2) * 0x8000_0000_0000_0000_0000_0000_0000_0000,
        (x >> 1) | (y << 127) == (x >> 1) + (y << 127),
        (x & 1 == 0) == (x % 2 == 0),
{
}

/// In `lo + hi * 2^k` with `lo < 2^k`, the bits below position `k` are those
/// of `lo` and the bits from `k` on are those of `hi`.
pub proof fn lemma_bit_of_split(lo: nat, hi: nat, k: nat, n: nat)
    requires
        lo < pow2(k),
    ensures
        n < k ==> bit_of(lo + hi * pow2(k), n) == bit_of(lo, n),
        n >= k ==> bit_of(lo + hi * pow2(k), n) == bit_of(hi, (n - k) as nat),
{
    let v = lo + hi * pow2(k);
    lemma_pow2_pos(k);
    lemma_pow2_pos(n);
    if n < k {
        let d = (k - n) as nat;
        lemma_pow2_adds(d, n);
        lemma_pow2_unfold(d);
        let e = (d - 1) as nat;
        // hi * 2^k == (hi * 2^e * 2) * 2^n
        assert(hi * pow2(k) == (hi * pow2(e) * 2) * pow2(n)) by (nonlinear_arith)
            requires
                pow2(k) == pow2(d) * pow2(n),
                pow2(d) == 2 * pow2(e),
        ;
        lemma_hoist_over_denominator(lo as int, (hi * pow2(e) * 2) as int, pow2(n));
        assert(v / pow2(n) == lo / pow2(n) + hi * pow2(e) * 2);
        assert((lo / pow2(n) + hi * pow2(e) * 2) % 2 == (lo / pow2(n)) % 2) by {
            lemma_mod_multiples_vanish((hi * pow2(e)) as int, (lo / pow2(n)) as int, 2);
        }
    } else {
        let d = (n - k) as nat;
        lemma_pow2_adds(k, d);
        lemma_pow2_pos(d);
        lemma_div_denominator(v as int, pow2(k) as int, pow2(d) as int);
        lemma_fundamental_div_mod_converse(v as int, pow2(k) as int, hi as int, lo as int);
    }
}

/// A number below `2^k` has no bits from position `k` on; stated for the form
/// in which a limb is read as the upper part of a wider integer.
pub proof fn lemma_bit_of_zero_extend(v: nat, n: nat)
    ensures
        bit_of(v, n) ==> v >= pow2(n),
{
    lemma_pow2_pos(n);
    if v < pow2(n) {
        lemma_basic_div(v as int, pow2(n) as int);
    }
}

/// The bits of `v` from position `n` on are twice those from `n + 1` on, plus
/// bit `n`.
pub proof fn lemma_bit_of_step(v: nat, n: nat)
    ensures
        v / pow2(n) == 2 * (v / pow2(n + 1)) + (if bit_of(v, n) { 1nat } else { 0nat }),
{
    lemma_pow2_pos(n);
    lemma_pow2_unfold(n + 1);
    lemma_div_denominator(v as int, pow2(n) as int, 2);
    assert(pow2(n) * 2 == pow2(n + 1));
}

} // verus!
