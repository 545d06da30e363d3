//! Montgomery form: a residue `v` modulo `m` is held as `v * 2^256 mod m`.
use crate::arith::wide_base;
use crate::lemmas::modular::{congruent, lemma_congruent_iff, lemma_congruent_scale};
use vstd::arithmetic::div_mod::*;
use vstd::arithmetic::mul::*;
use vstd::prelude::*;

verus! {

/// `rinv` inverts 2^256 modulo `m`.
pub open spec fn is_radix_inverse(m: nat, rinv: nat) -> bool {
    m > 1 && (rinv * wide_base()) % m == 1
}

/// The Montgomery form of the residue `v`.
pub open spec fn to_montgomery(v: nat, m: nat) -> nat {
    (v * wide_base()) % m
}

/// The residue whose Montgomery form is `x`.
pub open spec fn from_montgomery(x: nat, m: nat, rinv: nat) -> nat {
    (x * rinv) % m
}

/// Multiplying by 2^256 and then by its inverse changes nothing modulo `m`.
pub proof fn lemma_radix_cancels(x: int, m: nat, rinv: nat)
    requires
        is_radix_inverse(m, rinv),
    ensures
        congruent(x * wide_base() * rinv, x, m as int),
        congruent(x * rinv * wide_base(), x, m as int),
{
    let mi = m as int;
    let one = rinv * wide_base();
    lemma_small_mod(1, m);
    lemma_congruent_iff(one as int, 1, mi);
    lemma_congruent_scale(one as int, 1, x, mi);
    assert(x * one == x * wide_base() * rinv) by (nonlinear_arith)
        requires
            one == rinv * wide_base(),
    ;
    assert(x * one == x * rinv * wide_base()) by (nonlinear_arith)
        requires
            one == rinv * wide_base(),
    ;
}

/// Converting a residue to Montgomery form and back yields the residue.
pub proof fn lemma_from_to_montgomery(v: nat, m: nat, rinv: nat)
    requires
        is_radix_inverse(m, rinv),
    ensures
        from_montgomery(to_montgomery(v, m), m, rinv) == v % m,
{
    let mi = m as int;
    lemma_mul_mod_noop_left((v * wide_base()) as int, rinv as int, mi);
    lemma_radix_cancels(v as int, m, rinv);
    lemma_congruent_iff((v * wide_base() * rinv) as int, v as int, mi);
}

/// Converting a reduced Montgomery form to its residue and back yields the
/// form.
pub proof fn lemma_to_from_montgomery(x: nat, m: nat, rinv: nat)
    requires
        is_radix_inverse(m, rinv),
        x < m,
    ensures
        to_montgomery(from_montgomery(x, m, rinv), m) == x,
{
    let mi = m as int;
    lemma_mul_mod_noop_left((x * rinv) as int, wide_base() as int, mi);
    lemma_radix_cancels(x as int, m, rinv);
    lemma_congruent_iff((x * rinv * wide_base()) as int, x as int, mi);
    lemma_small_mod(x, m);
}

/// Two reduced Montgomery forms of one residue are the same.
pub proof fn lemma_from_montgomery_injective(x: nat, y: nat, m: nat, rinv: nat)
    requires
        is_radix_inverse(m, rinv),
        x < m,
        y < m,
        from_montgomery(x, m, rinv) == from_montgomery(y, m, rinv),
    ensures
        x == y,
{
    lemma_to_from_montgomery(x, m, rinv);
    lemma_to_from_montgomery(y, m, rinv);
}

/// A Montgomery product `t` of the forms `a` and `b`, that is `t * 2^256`
/// congruent to `a * b`, is the form of the product of their residues.
pub proof fn lemma_montgomery_product(a: nat, b: nat, t: nat, m: nat, rinv: nat)
    requires
        is_radix_inverse(m, rinv),
        (t * wide_base()) % m == (a * b) % m,
    ensures
        from_montgomery(t, m, rinv) == (from_montgomery(a, m, rinv) * from_montgomery(
            b,
            m,
            rinv,
        )) % m,
{
    let mi = m as int;
    let ri = rinv as int;
    let w = wide_base() as int;
    // t == t * w * rinv == a * b * rinv (mod m)
    lemma_radix_cancels(t as int, m, rinv);
    lemma_congruent_iff(t * w, (a * b) as int, mi);
    lemma_congruent_scale(t * w, (a * b) as int, ri, mi);
    // so t * rinv == (a * rinv) * (b * rinv) (mod m)
    lemma_congruent_scale(t * w * ri, (a * b) * ri, ri, mi);
    lemma_congruent_scale(t * w * ri, t as int, ri, mi);
    assert((a * b) * ri * ri == (a * ri) * (b * ri)) by (nonlinear_arith);
    lemma_congruent_iff(t * w * ri * ri, (a * ri) * (b * ri), mi);
    lemma_congruent_iff(t * w * ri * ri, t * ri, mi);
    lemma_mul_mod_noop(a * ri, b * ri, mi);
}

/// The residue of a sum of forms is the sum of their residues.
pub proof fn lemma_montgomery_sum(a: nat, b: nat, m: nat, rinv: nat)
    requires
        m > 0,
    ensures
        from_montgomery((a + b) % m, m, rinv) == (from_montgomery(a, m, rinv) + from_montgomery(
            b,
            m,
            rinv,
        )) % m,
{
    let mi = m as int;
    let ri = rinv as int;
    lemma_mul_mod_noop_left((a + b) as int, ri, mi);
    assert((a + b) * ri == a * ri + b * ri) by (nonlinear_arith);
    lemma_add_mod_noop(a * ri, b * ri, mi);
}

/// The residue of a difference of forms is the difference of their residues.
pub proof fn lemma_montgomery_difference(a: nat, b: nat, m: nat, rinv: nat)
    requires
        m > 0,
    ensures
        from_montgomery(((a - b) % (m as int)) as nat, m, rinv) == (from_montgomery(a, m, rinv)
            - from_montgomery(b, m, rinv)) % (m as int),
{
    let mi = m as int;
    let ri = rinv as int;
    lemma_mul_mod_noop_left(a - b, ri, mi);
    assert((a - b) * ri == a * ri - b * ri) by (nonlinear_arith);
    lemma_sub_mod_noop(a * ri, b * ri, mi);
}

/// A reduced `t` with `t * 2^256` congruent to `x` is the residue of the
/// form `x`.
pub proof fn lemma_montgomery_reduce(x: nat, t: nat, m: nat, rinv: nat)
    requires
        is_radix_inverse(m, rinv),
        t < m,
        (t * wide_base()) % m == x % m,
    ensures
        t == from_montgomery(x, m, rinv),
{
    let mi = m as int;
    let w = wide_base() as int;
    let ri = rinv as int;
    lemma_congruent_iff(t * w, x as int, mi);
    lemma_congruent_scale(t * w, x as int, ri, mi);
    lemma_radix_cancels(t as int, m, rinv);
    lemma_congruent_iff(t * w * ri, x * ri, mi);
    lemma_congruent_iff(t * w * ri, t as int, mi);
    lemma_small_mod(t, m);
}

/// The Montgomery product of `a` with the form of 2^256 is the form of `a`:
/// its residue is `a` itself, reduced.
pub proof fn lemma_montgomery_lift(a: nat, t: nat, m: nat, rinv: nat)
    requires
        is_radix_inverse(m, rinv),
        (t * wide_base()) % m == (a * to_montgomery(wide_base(), m)) % m,
    ensures
        from_montgomery(t, m, rinv) == a % m,
{
    let mi = m as int;
    let w = wide_base() as int;
    let ri = rinv as int;
    let r2 = to_montgomery(wide_base(), m);
    lemma_montgomery_product(a, r2, t, m, rinv);
    lemma_from_to_montgomery(wide_base(), m, rinv);
    // (a * rinv % m) * (w % m) == a * rinv * w == a (mod m)
    lemma_mul_mod_noop(a * ri, w, mi);
    lemma_radix_cancels(a as int, m, rinv);
    lemma_congruent_iff(a * ri * w, a as int, mi);
}

/// From an inverse `y` of the form `x`, the Montgomery product of `y` with the
/// form of 2^512 is the form of the inverse of the residue of `x`.
pub proof fn lemma_montgomery_inverse(x: nat, y: nat, t: nat, m: nat, rinv: nat)
    requires
        is_radix_inverse(m, rinv),
        (y * x) % m == 1,
        (t * wide_base()) % m == (y * to_montgomery(wide_base() * wide_base(), m)) % m,
    ensures
        (from_montgomery(x, m, rinv) * from_montgomery(t, m, rinv)) % m == 1,
{
    let mi = m as int;
    let w = wide_base() as int;
    let ri = rinv as int;
    let r3 = to_montgomery(wide_base() * wide_base(), m);
    lemma_montgomery_product(y, r3, t, m, rinv);
    lemma_from_to_montgomery(wide_base() * wide_base(), m, rinv);
    let vy = from_montgomery(y, m, rinv) as int;
    let vx = from_montgomery(x, m, rinv) as int;
    let vt = from_montgomery(t, m, rinv) as int;
    // vt == (y * rinv) * (w * w), vx == x * rinv (mod m)
    lemma_mul_mod_noop(y * ri, w * w, mi);
    assert(vt == ((y * ri) * (w * w)) % mi);
    lemma_mul_mod_noop(x * ri, (y * ri) * (w * w), mi);
    assert((x * ri) * ((y * ri) * (w * w)) == (y * x) * ((ri * w) * (ri * w)))
        by (nonlinear_arith);
    // (ri * w) * (ri * w) == 1 (mod m)
    lemma_mul_mod_noop(ri * w, ri * w, mi);
    lemma_small_mod(1, m);
    lemma_mul_mod_noop((y * x) as int, (ri * w) * (ri * w), mi);
}

} // verus!
