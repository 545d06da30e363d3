//! Divisibility, coprimality and congruences.
use vstd::arithmetic::div_mod::*;
use vstd::arithmetic::mul::*;
use vstd::prelude::*;

verus! {

/// `d` divides `a`.
pub open spec fn divides(d: nat, a: nat) -> bool {
    d > 0 && a % d == 0
}

/// `a` and `b` have no common divisor but one.
pub open spec fn coprime(a: nat, b: nat) -> bool {
    forall|d: nat| #[trigger] divides(d, a) && divides(d, b) ==> d == 1
}

/// `x` and `y` leave the same remainder modulo `m`.
pub open spec fn congruent(x: int, y: int, m: int) -> bool {
    (x - y) % m == 0
}

/// A divisor of `a` divides every multiple of `a`.
pub proof fn lemma_divides_multiple(d: nat, a: nat, k: nat)
    requires
        divides(d, a),
    ensures
        divides(d, a * k),
{
    let q = a / d;
    lemma_fundamental_div_mod(a as int, d as int);
    assert(a * k == (q * k) * d) by (nonlinear_arith)
        requires
            a == d * q,
    ;
    lemma_mod_multiples_basic((q * k) as int, d as int);
}

/// A common divisor of two numbers divides their sum.
pub proof fn lemma_divides_sum(d: nat, a: nat, b: nat)
    requires
        divides(d, a),
        divides(d, b),
    ensures
        divides(d, a + b),
{
    lemma_add_mod_noop(a as int, b as int, d as int);
    lemma_small_mod(0, d);
}

/// Coprimality does not depend on the order of the pair.
pub proof fn lemma_coprime_symmetric(a: nat, b: nat)
    requires
        coprime(a, b),
    ensures
        coprime(b, a),
{
    assert forall|d: nat| #[trigger] divides(d, b) && divides(d, a) implies d == 1 by {
        assert(divides(d, a) && divides(d, b));
    }
}

/// Halving an even member of a coprime pair leaves the pair coprime.
pub proof fn lemma_coprime_halve(u: nat, v: nat)
    requires
        coprime(u, v),
        u % 2 == 0,
    ensures
        coprime(u / 2, v),
{
    assert forall|d: nat| #[trigger] divides(d, u / 2) && divides(d, v) implies d == 1 by {
        lemma_divides_multiple(d, u / 2, 2);
        assert((u / 2) * 2 == u);
        assert(divides(d, u) && divides(d, v));
    }
}

/// Subtracting the smaller member of a coprime pair from the larger leaves
/// the pair coprime.
pub proof fn lemma_coprime_subtract(u: nat, v: nat)
    requires
        coprime(u, v),
        v <= u,
    ensures
        coprime((u - v) as nat, v),
{
    assert forall|d: nat| #[trigger] divides(d, (u - v) as nat) && divides(d, v) implies d
        == 1 by {
        lemma_divides_sum(d, (u - v) as nat, v);
        assert(divides(d, u) && divides(d, v));
    }
}

/// The members of a coprime pair are not both even, and a positive number is
/// coprime to itself only if it is one.
pub proof fn lemma_coprime_basics(u: nat, v: nat)
    requires
        coprime(u, v),
    ensures
        !(u % 2 == 0 && v % 2 == 0),
        u == v && u > 0 ==> u == 1,
{
    if u % 2 == 0 && v % 2 == 0 {
        assert(divides(2, u) && divides(2, v));
    }
    if u == v && u > 0 {
        lemma_mod_self_0(u as int);
        assert(divides(u, u) && divides(u, v));
    }
}

/// Modulo an odd number, a factor of two can be cancelled from a multiple.
pub proof fn lemma_cancel_two(x: int, m: int)
    requires
        m > 0,
        m % 2 == 1,
        (2 * x) % m == 0,
    ensures
        x % m == 0,
{
    let q = (2 * x) / m;
    lemma_fundamental_div_mod(2 * x, m);
    let j = m / 2;
    assert(m * q == 2 * (j * q) + q) by (nonlinear_arith)
        requires
            m == 2 * j + 1,
    ;
    let h = q / 2;
    assert(q == 2 * h);
    assert(x == h * m) by (nonlinear_arith)
        requires
            2 * x == m * q,
            q == 2 * h,
    ;
    lemma_mod_multiples_basic(h, m);
}

/// Congruent numbers have equal remainders, and conversely.
pub proof fn lemma_congruent_iff(x: int, y: int, m: int)
    requires
        m > 0,
    ensures
        congruent(x, y, m) <==> x % m == y % m,
{
    lemma_mod_equivalence(x, y, m);
}

/// Congruences may be added and subtracted.
pub proof fn lemma_congruent_combine(x1: int, y1: int, x2: int, y2: int, m: int)
    requires
        m > 0,
        congruent(x1, y1, m),
        congruent(x2, y2, m),
    ensures
        congruent(x1 + x2, y1 + y2, m),
        congruent(x1 - x2, y1 - y2, m),
{
    let d1 = x1 - y1;
    let d2 = x2 - y2;
    lemma_add_mod_noop(d1, d2, m);
    lemma_sub_mod_noop(d1, d2, m);
    lemma_small_mod(0, m as nat);
    assert((x1 + x2) - (y1 + y2) == d1 + d2);
    assert((x1 - x2) - (y1 - y2) == d1 - d2);
}

/// A congruence may be multiplied by a constant.
pub proof fn lemma_congruent_scale(x: int, y: int, k: int, m: int)
    requires
        m > 0,
        congruent(x, y, m),
    ensures
        congruent(x * k, y * k, m),
        congruent(k * x, k * y, m),
{
    let d = x - y;
    lemma_mul_mod_noop_left(d, k, m);
    assert(d * k == x * k - y * k) by (nonlinear_arith)
        requires
            d == x - y,
    ;
    assert(d * k == k * x - k * y) by (nonlinear_arith)
        requires
            d == x - y,
    ;
    assert(0 * k == 0);
    lemma_small_mod(0, m as nat);
}

/// A multiple of the modulus may be added to either side of a congruence.
pub proof fn lemma_congruent_shift(x: int, y: int, k: int, m: int)
    requires
        m > 0,
        congruent(x, y, m),
    ensures
        congruent(x + k * m, y, m),
        congruent(x, y + k * m, m),
{
    lemma_mod_multiples_vanish(k, x - y, m);
    lemma_mod_multiples_vanish(-k, x - y, m);
    assert(m * k + (x - y) == (x + k * m) - y) by (nonlinear_arith);
    assert(m * (-k) + (x - y) == x - (y + k * m)) by (nonlinear_arith);
}

} // verus!
