//! Prime moduli. A modulus is shown to be prime by a generator of its group of
//! units: a number whose powers run through every residue but zero.
use crate::lemmas::modular::{coprime, divides};
use vstd::arithmetic::div_mod::*;
use vstd::arithmetic::mul::*;
use vstd::arithmetic::power::*;
use vstd::prelude::*;
use vstd::relations::injective_on;
use vstd::set_lib::*;

verus! {

/// `p` is prime: nothing divides it but one and itself.
pub open spec fn is_prime(p: nat) -> bool {
    p > 1 && forall|d: nat| #[trigger] divides(d, p) ==> d == 1 || d == p
}

/// `a` is not a multiple of `p`.
pub open spec fn is_unit(a: nat, p: nat) -> bool {
    a % p != 0
}

/// `b` inverts `a` modulo `p`.
pub open spec fn is_inverse(a: nat, b: nat, p: nat) -> bool {
    (a * b) % p == 1
}

/// The residues modulo `p` form a field: every residue but zero has an
/// inverse. This holds of the primes and of no other modulus.
pub open spec fn is_field_modulus(p: nat) -> bool {
    p > 1 && forall|a: nat| #[trigger] is_unit(a, p) ==> exists|b: nat| is_inverse(a, b, p)
}

/// The powers of `g` run through every residue modulo `p` but zero.
pub open spec fn is_generator(g: nat, p: nat) -> bool {
    &&& p > 1
    &&& pow(g as int, (p - 1) as nat) % (p as int) == 1
    &&& forall|a: nat| #[trigger]
        is_nonzero_residue(a, p) ==> exists|k: nat|
            k < p - 1 && #[trigger] power_residue(g, k, p) == a
}

/// `a` is a residue modulo `p` other than zero.
pub open spec fn is_nonzero_residue(a: nat, p: nat) -> bool {
    0 < a < p
}

/// `g` to the power `e`, modulo `p`.
pub open spec fn power_residue(g: nat, e: nat, p: nat) -> nat {
    (pow(g as int, e) % (p as int)) as nat
}

/// `g` to the power `e` modulo `p` by repeated squaring, in the form in which
/// it is evaluated on given numbers.
pub open spec fn mod_exp(g: int, e: int, p: int) -> int
    decreases e,
{
    if e <= 0 {
        1
    } else {
        let h = mod_exp(g, e / 2, p);
        let s = (h * h) % p;
        if e % 2 == 1 {
            (s * g) % p
        } else {
            s
        }
    }
}

/// Residues of powers multiply as the exponents add.
pub proof fn lemma_power_residue_adds(g: nat, a: nat, b: nat, p: nat)
    requires
        p > 0,
    ensures
        power_residue(g, a + b, p) == (power_residue(g, a, p) * power_residue(g, b, p)) % p,
{
    lemma_pow_adds(g as int, a, b);
    lemma_mul_mod_noop(pow(g as int, a), pow(g as int, b), p as int);
}

/// The residue of a power of a power.
pub proof fn lemma_power_residue_multiplies(g: nat, a: nat, b: nat, p: nat)
    requires
        p > 0,
    ensures
        power_residue(g, a * b, p) == power_residue(power_residue(g, a, p), b, p),
{
    lemma_pow_multiplies(g as int, a, b);
    lemma_pow_mod_noop(pow(g as int, a), b, p as int);
}

/// A power of a number congruent to one is congruent to one.
pub proof fn lemma_power_of_one(b: nat, p: nat)
    requires
        p > 1,
    ensures
        power_residue(1, b, p) == 1,
{
    lemma1_pow(b);
    lemma_small_mod(1, p);
}

/// Repeated squaring computes the residue of the power.
pub proof fn lemma_mod_exp(g: nat, e: nat, p: nat)
    requires
        p > 1,
    ensures
        mod_exp(g as int, e as int, p as int) == power_residue(g, e, p),
    decreases e,
{
    let pi = p as int;
    if e == 0 {
        lemma_pow0(g as int);
        lemma_small_mod(1, p);
    } else {
        let half = e / 2;
        lemma_mod_exp(g, half, p);
        let h = power_residue(g, half, p);
        lemma_power_residue_adds(g, half, half, p);
        assert(half + half == 2 * half);
        let s = power_residue(g, 2 * half, p);
        assert(s == (h * h) % p);
        if e % 2 == 1 {
            lemma_power_residue_adds(g, 2 * half, 1, p);
            lemma_pow1(g as int);
            lemma_mul_mod_noop_right(s as int, g as int, pi);
            assert(2 * half + 1 == e);
        } else {
            assert(2 * half == e);
        }
    }
}

/// A residue with an inverse shares no divisor with the modulus.
pub proof fn lemma_inverse_implies_coprime(a: nat, b: nat, p: nat)
    requires
        p > 1,
        is_inverse(a, b, p),
    ensures
        coprime(a, p),
{
    assert forall|d: nat| #[trigger] divides(d, a) && divides(d, p) implies d == 1 by {
        let j = (a * b) / p;
        lemma_fundamental_div_mod((a * b) as int, p as int);
        let x = a / d;
        let y = p / d;
        lemma_fundamental_div_mod(a as int, d as int);
        lemma_fundamental_div_mod(p as int, d as int);
        // 1 == a * b - p * j == d * (x * b - y * j)
        assert(1 == d * (x * b - y * j)) by (nonlinear_arith)
            requires
                a * b == p * j + 1,
                a == d * x,
                p == d * y,
        ;
        let z = x * b - y * j;
        assert(d == 1) by (nonlinear_arith)
            requires
                1 == d * z,
                d > 0,
        {
            if z <= 0 {
                assert(d * z <= 0);
            } else if d > 1 {
                assert(d * z >= 2 * z);
            }
        }
    }
}

/// Every residue but zero is coprime to a field modulus.
pub proof fn lemma_field_modulus_coprime(a: nat, p: nat)
    requires
        is_field_modulus(p),
        a % p != 0,
    ensures
        coprime(a, p),
{
    assert(is_unit(a, p));
    let b = choose|b: nat| is_inverse(a, b, p);
    lemma_inverse_implies_coprime(a, b, p);
}

/// A field modulus is prime.
pub proof fn lemma_field_modulus_is_prime(p: nat)
    requires
        is_field_modulus(p),
    ensures
        is_prime(p),
{
    assert forall|d: nat| #[trigger] divides(d, p) implies d == 1 || d == p by {
        if d != p {
            assert(d <= p) by {
                if d > p {
                    lemma_small_mod(p, d);
                }
            }
            lemma_small_mod(d, p);
            lemma_field_modulus_coprime(d, p);
            lemma_mod_self_0(d as int);
            assert(divides(d, d) && divides(d, p));
        }
    }
}

/// Modulo a field modulus a product is zero only where a factor is.
pub proof fn lemma_no_zero_divisors(x: nat, y: nat, p: nat)
    requires
        is_field_modulus(p),
        (x * y) % p == 0,
    ensures
        x % p == 0 || y % p == 0,
{
    if x % p != 0 {
        assert(is_unit(x, p));
        let b = choose|b: nat| is_inverse(x, b, p);
        let pi = p as int;
        // y == (x * b) * y == b * (x * y) == 0 (mod p)
        lemma_mul_mod_noop_left((x * b) as int, y as int, pi);
        lemma_mul_mod_noop_right(b as int, (x * y) as int, pi);
        assert((x * b) * y == b * (x * y)) by (nonlinear_arith);
        assert(b * 0 == 0);
        lemma_small_mod(0, p);
        assert(1 * y == y);
    }
}

/// Where a field modulus divides neither `d` nor leaves `d` out of a product
/// `q * n`, that is where `d` divides `q * n` and `q` does not divide `d`,
/// `d` divides `n`.
pub proof fn lemma_divides_cofactor(d: nat, q: nat, n: nat)
    requires
        is_field_modulus(q),
        divides(d, q * n),
        d % q != 0,
    ensures
        divides(d, n),
{
    assert(is_unit(d, q));
    let b = choose|b: nat| is_inverse(d, b, q);
    let j = (d * b) / q;
    lemma_fundamental_div_mod((d * b) as int, q as int);
    let m = (q * n) / d;
    lemma_fundamental_div_mod((q * n) as int, d as int);
    // n == n * (d * b - q * j) == d * (b * n - j * m)
    let k = b * n - j * m;
    assert(n == k * d) by (nonlinear_arith)
        requires
            d * b == q * j + 1,
            q * n == d * m,
            k == b * n - j * m,
    ;
    lemma_mod_multiples_basic(k, d as int);
}

/// No proper divisor `d` of `n` has `g^(d * t)` congruent to one.
pub open spec fn no_early_unit(p: nat, g: nat, n: nat, t: nat) -> bool {
    forall|d: nat| #[trigger] divides(d, n) && d != n ==> power_residue(g, d * t, p) != 1
}

/// One has no proper divisor.
pub proof fn lemma_no_early_unit_start(p: nat, g: nat, t: nat)
    ensures
        no_early_unit(p, g, 1, t),
{
    assert forall|d: nat| #[trigger] divides(d, 1) && d != 1 implies power_residue(g, d * t, p)
        != 1 by {
        lemma_small_mod(1, d);
    }
}

/// One more prime factor: from the proper divisors of `n` to those of
/// `n * q`, given that `g^(n * t)` is not congruent to one.
pub proof fn lemma_no_early_unit_extend(p: nat, g: nat, n: nat, q: nat, t: nat, e: nat)
    requires
        p > 1,
        n > 0,
        is_field_modulus(q),
        no_early_unit(p, g, n, q * t),
        e == n * t,
        power_residue(g, e, p) != 1,
    ensures
        no_early_unit(p, g, n * q, t),
{
    assert forall|d: nat| #[trigger] divides(d, n * q) && d != n * q implies power_residue(
        g,
        d * t,
        p,
    ) != 1 by {
        if d % q == 0 {
            let c = d / q;
            lemma_fundamental_div_mod(d as int, q as int);
            let m = (n * q) / d;
            lemma_fundamental_div_mod((n * q) as int, d as int);
            assert(n == c * m) by (nonlinear_arith)
                requires
                    d == q * c,
                    n * q == d * m,
                    q > 1,
            ;
            assert(c > 0) by (nonlinear_arith)
                requires
                    d == q * c,
                    d > 0,
            ;
            lemma_mod_multiples_basic(m as int, c as int);
            assert(c != n) by {
                if c == n {
                    assert(q * c == n * q) by (nonlinear_arith)
                        requires
                            c == n,
                    ;
                }
            }
            assert(divides(c, n));
            assert(c * (q * t) == d * t) by (nonlinear_arith)
                requires
                    d == q * c,
            ;
        } else {
            assert(q * n == n * q) by (nonlinear_arith);
            lemma_divides_cofactor(d, q, n);
            let m = n / d;
            lemma_fundamental_div_mod(n as int, d as int);
            assert((d * t) * m == e) by (nonlinear_arith)
                requires
                    n == d * m,
                    e == n * t,
            ;
            if power_residue(g, d * t, p) == 1 {
                lemma_power_residue_multiplies(g, d * t, m, p);
                lemma_power_of_one(m, p);
            }
        }
    }
}

/// With `g^n` congruent to one and no proper divisor of `n` an exponent that
/// gives one, no positive exponent below `n` gives one.
proof fn lemma_order_is_full(p: nat, g: nat, n: nat, e: nat)
    requires
        p > 1,
        power_residue(g, n, p) == 1,
        no_early_unit(p, g, n, 1),
        0 < e < n,
    ensures
        power_residue(g, e, p) != 1,
    decreases e,
{
    if power_residue(g, e, p) == 1 {
        let k = n / e;
        let r = n % e;
        lemma_fundamental_div_mod(n as int, e as int);
        assert(n == e * k + r);
        // g^n == (g^e)^k * g^r, so g^r is congruent to one
        lemma_power_residue_adds(g, e * k, r, p);
        lemma_power_residue_multiplies(g, e, k, p);
        lemma_power_of_one(k, p);
        lemma_mod_bound(pow(g as int, r), p as int);
        let x = power_residue(g, r, p);
        lemma_small_mod(x, p);
        assert(power_residue(g, e * k, p) == 1);
        assert(power_residue(g, e * k + r, p) == (1 * x) % p);
        assert(1 * x == x);
        assert(x == 1);
        if r == 0 {
            assert(divides(e, n));
            assert(e * 1 == e);
        } else {
            lemma_order_is_full(p, g, n, r);
        }
    }
}

/// The residue of `g^i` in the form in which the powers are counted.
spec fn power_at(g: nat, p: nat) -> spec_fn(int) -> int {
    |i: int| power_residue(g, i as nat, p) as int
}

/// A number whose order is `p - 1` is a generator: its `p - 1` first powers
/// are distinct residues other than zero, and there are no more such residues.
pub proof fn lemma_full_order_generates(p: nat, g: nat)
    requires
        p > 1,
        power_residue(g, (p - 1) as nat, p) == 1,
        no_early_unit(p, g, (p - 1) as nat, 1),
    ensures
        is_generator(g, p),
{
    let n = (p - 1) as nat;
    let f = power_at(g, p);
    let from = set_int_range(0, n as int);
    let onto = set_int_range(1, p as int);
    lemma_int_range(0, n as int);
    lemma_int_range(1, p as int);
    assert forall|i: int| 0 <= i <= n implies 0 < #[trigger] f(i) < p by {
        lemma_power_residue_adds(g, i as nat, (n - i) as nat, p);
        lemma_mod_bound(pow(g as int, i as nat), p as int);
        if f(i) == 0 {
            assert(0 * power_residue(g, (n - i) as nat, p) == 0);
            lemma_small_mod(0, p);
        }
    }
    assert(injective_on(f, from)) by {
        assert forall|i: int, j: int|
            from.contains(i) && from.contains(j) && #[trigger] f(i) == #[trigger] f(j) implies i
            == j by {
            if i != j {
                let (lo, hi) = if i < j {
                    (i, j)
                } else {
                    (j, i)
                };
                let e = (hi - lo) as nat;
                // g^hi * g^(n - lo) == g^lo * g^(n - lo) == 1, and is g^n * g^e
                lemma_power_residue_adds(g, lo as nat, (n - lo) as nat, p);
                lemma_power_residue_adds(g, hi as nat, (n - lo) as nat, p);
                lemma_power_residue_adds(g, n, e, p);
                assert(hi + (n - lo) == n + e);
                assert(f(e as int) < p);
                lemma_small_mod(power_residue(g, e, p), p);
                assert(1 * power_residue(g, e, p) == power_residue(g, e, p));
                lemma_order_is_full(p, g, n, e);
            }
        }
    }
    let image = from.map(f);
    assert(image.subset_of(onto)) by {
        assert forall|a: int| image.contains(a) implies onto.contains(a) by {
            let i = choose|i: int| from.contains(i) && a == f(i);
            assert(0 < f(i) < p);
        }
    }
    lemma_map_size(from, image, f);
    lemma_subset_equality(image, onto);
    assert forall|a: nat| #[trigger] is_nonzero_residue(a, p) implies exists|k: nat|
        k < p - 1 && #[trigger] power_residue(g, k, p) == a by {
        assert(onto.contains(a as int));
        assert(image.contains(a as int));
        let i = choose|i: int| from.contains(i) && a as int == f(i);
        assert((i as nat) < p - 1 && power_residue(g, i as nat, p) == a);
    }
}

/// A modulus with a generator is a field modulus: the residue `g^k` has the
/// inverse `g^(p - 1 - k)`.
pub proof fn lemma_generator_implies_field(g: nat, p: nat)
    requires
        is_generator(g, p),
    ensures
        is_field_modulus(p),
{
    let n = (p - 1) as nat;
    assert forall|a: nat| #[trigger] is_unit(a, p) implies exists|b: nat| is_inverse(a, b, p) by {
        let r = a % p;
        lemma_mod_bound(a as int, p as int);
        assert(is_nonzero_residue(r, p));
        let k = choose|k: nat| k < p - 1 && #[trigger] power_residue(g, k, p) == r;
        let b = power_residue(g, (n - k) as nat, p);
        lemma_power_residue_adds(g, k, (n - k) as nat, p);
        lemma_mul_mod_noop_left(a as int, b as int, p as int);
        assert(is_inverse(a, b, p));
    }
}

/// Fermat's little theorem for a modulus with a generator.
pub proof fn lemma_generator_implies_fermat(g: nat, p: nat, a: nat)
    requires
        is_generator(g, p),
        a % p != 0,
    ensures
        power_residue(a, (p - 1) as nat, p) == 1,
{
    let n = (p - 1) as nat;
    let r = a % p;
    lemma_mod_bound(a as int, p as int);
    assert(is_nonzero_residue(r, p));
    let k = choose|k: nat| k < p - 1 && #[trigger] power_residue(g, k, p) == r;
    // a^n == (g^k)^n == (g^n)^k == 1
    lemma_pow_mod_noop(a as int, n, p as int);
    lemma_power_residue_multiplies(g, k, n, p);
    lemma_power_residue_multiplies(g, n, k, p);
    assert(k * n == n * k) by (nonlinear_arith);
    lemma_power_of_one(k, p);
}

/// `a` is the square of some residue modulo `p`.
pub open spec fn is_quadratic_residue(a: nat, p: nat) -> bool {
    exists|x: nat| #[trigger] square_residue(x, p) == a
}

/// The square of `x`, modulo `p`.
pub open spec fn square_residue(x: nat, p: nat) -> nat {
    (x * x) % p
}

/// A field modulus has two square roots of one: one and its negative.
pub proof fn lemma_square_root_of_one(x: nat, p: nat)
    requires
        is_field_modulus(p),
        x < p,
        (x * x) % p == 1,
    ensures
        x == 1 || x == p - 1,
{
    let pi = p as int;
    // (x - 1) * (x + 1) == x * x - 1, a multiple of p
    lemma_fundamental_div_mod((x * x) as int, pi);
    let k = ((x * x) as int) / pi;
    if x == 0 {
        assert(0nat * 0nat == 0);
        lemma_small_mod(0, p);
    } else {
        let y = (x - 1) as nat;
        assert(y * (x + 1) == k * pi) by (nonlinear_arith)
            requires
                x * x == pi * k + 1,
                y == x - 1,
        ;
        lemma_mod_multiples_basic(k, pi);
        lemma_no_zero_divisors(y, x + 1, p);
        if y % p == 0 {
            lemma_small_mod(y, p);
        } else {
            if x + 1 < p {
                lemma_small_mod(x + 1, p);
            }
        }
    }
}

/// Two residues of a field modulus with the same square are equal or
/// negatives of each other.
pub proof fn lemma_equal_squares(x: nat, y: nat, p: nat)
    requires
        is_field_modulus(p),
        x < p,
        y < p,
        (x * x) % p == (y * y) % p,
    ensures
        x == y || x + y == p || x + y == 0,
{
    let pi = p as int;
    let (hi, lo) = if x >= y {
        (x, y)
    } else {
        (y, x)
    };
    let d = (hi - lo) as nat;
    lemma_mod_equivalence((hi * hi) as int, (lo * lo) as int, pi);
    assert(d * (hi + lo) == hi * hi - lo * lo) by (nonlinear_arith)
        requires
            d == hi - lo,
    ;
    lemma_no_zero_divisors(d, hi + lo, p);
    if d % p == 0 {
        lemma_small_mod(d, p);
    } else {
        let s = hi + lo;
        if s < p {
            lemma_small_mod(s, p);
        } else if s > p {
            lemma_fundamental_div_mod_converse(s as int, pi, 1, s - p);
        }
    }
}

/// Euler's criterion, for a modulus `p = 2 * h + 1` with a generator: the
/// power `a^h` of a residue other than zero is one or minus one, and it is one
/// where `a` is a square.
pub proof fn lemma_euler_criterion(g: nat, p: nat, h: nat, a: nat)
    requires
        is_generator(g, p),
        p == 2 * h + 1,
        a % p != 0,
    ensures
        power_residue(a, h, p) == 1 || power_residue(a, h, p) == p - 1,
        is_quadratic_residue(a % p, p) ==> power_residue(a, h, p) == 1,
{
    let pi = p as int;
    lemma_generator_implies_field(g, p);
    lemma_generator_implies_fermat(g, p, a);
    let r = power_residue(a, h, p);
    lemma_mod_bound(pow(a as int, h), pi);
    lemma_power_residue_adds(a, h, h, p);
    assert(h + h == p - 1);
    lemma_square_root_of_one(r, p);
    if is_quadratic_residue(a % p, p) {
        let x = choose|x: nat| #[trigger] square_residue(x, p) == a % p;
        assert(x % p != 0) by {
            if x % p == 0 {
                lemma_mul_mod_noop(x as int, x as int, pi);
                assert(0nat * 0nat == 0);
                lemma_small_mod(0, p);
                lemma_mod_twice(a as int, pi);
            }
        }
        // a^h == (x * x)^h == x^(2 * h) == 1
        lemma_generator_implies_fermat(g, p, x);
        lemma_pow_mod_noop(a as int, h, pi);
        lemma_pow_mod_noop((x * x) as int, h, pi);
        assert(pow((x * x) as int, h) == pow(x as int, 2 * h)) by {
            lemma_pow_multiplies(x as int, 2, h);
            lemma_pow_adds(x as int, 1, 1);
            lemma_pow1(x as int);
        }
        assert(2 * h == p - 1);
    }
}

/// Two is a field modulus.
pub proof fn lemma_field_modulus_two()
    ensures
        is_field_modulus(2),
{
    assert forall|a: nat| #[trigger] is_unit(a, 2) implies exists|b: nat| is_inverse(a, b, 2) by {
        assert(a * 1 == a);
        assert(is_inverse(a, 1, 2));
    }
}

} // verus!
