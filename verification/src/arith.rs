//! Mathematical definitions shared by the library, and the facts about them
//! that the contracts rely on.
use vstd::prelude::*;
use vstd::arithmetic::div_mod::{lemma_fundamental_div_mod, lemma_mod_multiples_basic, lemma_small_mod};

verus! {

/// `d` divides `a`: every number divides 0, and 0 divides only 0.
pub open spec fn divides(d: nat, a: nat) -> bool {
    if d == 0 {
        a == 0
    } else {
        a % d == 0
    }
}

/// `n` is a prime number.
pub open spec fn prime(n: nat) -> bool {
    &&& n >= 2
    &&& forall|d: nat| 2 <= d < n ==> #[trigger] (n % d) != 0
}

/// The greatest common divisor, by Euclid's recursion.
pub open spec fn spec_gcd(a: nat, b: nat) -> nat
    decreases b,
{
    if b == 0 {
        a
    } else {
        spec_gcd(b, a % b)
    }
}

/// A multiple of `d` plus a multiple of `d` is a multiple of `d`.
proof fn lemma_mod_zero_combo(d: int, x: int, y: int, q: int)
    requires
        d > 0,
        x % d == 0,
        y % d == 0,
    ensures
        (x * q + y) % d == 0,
{
    lemma_fundamental_div_mod(x, d);
    lemma_fundamental_div_mod(y, d);
    let k = (x / d) * q + y / d;
    assert(x * q + y == k * d) by (nonlinear_arith)
        requires
            x == d * (x / d),
            y == d * (y / d),
            k == (x / d) * q + y / d,
    ;
    lemma_mod_multiples_basic(k, d);
}

/// Euclid's recursion gives the same value with its arguments swapped when
/// the first is the smaller.
proof fn lemma_gcd_swap_small(a: nat, b: nat)
    requires
        a < b,
    ensures
        spec_gcd(a, b) == spec_gcd(b, a),
{
    lemma_small_mod(a, b);
}

/// The greatest common divisor does not depend on the order of its
/// arguments.
pub proof fn lemma_gcd_commutative(a: nat, b: nat)
    ensures
        spec_gcd(a, b) == spec_gcd(b, a),
{
    if a < b {
        lemma_gcd_swap_small(a, b);
    } else if b < a {
        lemma_gcd_swap_small(b, a);
    }
}

/// The greatest common divisor divides both of its arguments.
pub proof fn lemma_gcd_divides(a: nat, b: nat)
    ensures
        divides(spec_gcd(a, b), a),
        divides(spec_gcd(a, b), b),
    decreases b,
{
    if b == 0 {
        if a > 0 {
            vstd::arithmetic::div_mod::lemma_mod_self_0(a as int);
        }
    } else {
        let r = a % b;
        lemma_gcd_divides(b, r);
        let g = spec_gcd(b, r);
        if g == 0 {
            assert(b == 0);
        } else {
            lemma_fundamental_div_mod(a as int, b as int);
            lemma_mod_zero_combo(g as int, b as int, r as int, (a / b) as int);
            assert(a == b * (a / b) + r);
            assert(b as int * (a / b) as int == (b * (a / b)) as int);
        }
    }
}

/// Every common divisor of the arguments divides their greatest common
/// divisor.
pub proof fn lemma_gcd_greatest(a: nat, b: nat, d: nat)
    requires
        divides(d, a),
        divides(d, b),
    ensures
        divides(d, spec_gcd(a, b)),
    decreases b,
{
    if b != 0 {
        let r = a % b;
        assert(d > 0);
        lemma_fundamental_div_mod(a as int, b as int);
        lemma_mod_zero_combo(d as int, b as int, a as int, -((a / b) as int));
        assert(b * (-((a / b) as int)) + a == r) by (nonlinear_arith)
            requires
                a == b * (a / b) + r,
        ;
        lemma_gcd_greatest(b, r, d);
    }
}

/// The greatest common divisor is 0 only when both arguments are 0.
pub proof fn lemma_gcd_zero(a: nat, b: nat)
    ensures
        spec_gcd(a, b) == 0 <==> (a == 0 && b == 0),
{
    lemma_gcd_divides(a, b);
}


/// `p` is the first prime after `q`.
pub open spec fn is_next_prime(q: nat, p: nat) -> bool {
    &&& prime(p)
    &&& q < p
    &&& forall|k: nat| q < k < p ==> !#[trigger] prime(k)
}

/// No prime lies in `(q, hi]`.
pub open spec fn no_prime_in(q: nat, hi: nat) -> bool {
    forall|k: nat| q < k <= hi ==> !#[trigger] prime(k)
}

/// A number with no divisor in `[2, k)` that is not prime has a prime factor
/// `p` with `p * p <= n`.
proof fn lemma_least_factor_from(n: nat, k: nat)
    requires
        2 <= k <= n,
        !prime(n),
        n >= 2,
        forall|d: nat| 2 <= d < k ==> #[trigger] (n % d) != 0,
    ensures
        exists|p: nat| #[trigger] prime(p) && n % p == 0 && p * p <= n && p < n,
    decreases n - k,
{
    if n % k == 0 && k < n {
        // k is the least divisor: it is prime, and its cofactor is at least k.
        assert forall|e: nat| 2 <= e < k implies #[trigger] (k % e) != 0 by {
            if k % e == 0 {
                lemma_fundamental_div_mod(k as int, e as int);
                lemma_fundamental_div_mod(n as int, k as int);
                lemma_mod_zero_combo(e as int, k as int, 0, (n / k) as int);
                assert(k * (n / k) + 0 == n);
                assert((k as int * (n / k) as int) == n as int);
                assert(n % e == 0);
            }
        }
        assert(prime(k));
        let q = n / k;
        lemma_fundamental_div_mod(n as int, k as int);
        assert(n == k * q);
        assert(q >= 2) by (nonlinear_arith)
            requires n == k * q, k < n, k >= 2;
        assert(q >= k) by {
            if q < k {
                assert(n % q == 0) by {
                    lemma_mod_multiples_basic(k as int, q as int);
                    vstd::arithmetic::mul::lemma_mul_is_commutative(k as int, q as int);
                }
            }
        }
        assert(k * k <= n) by (nonlinear_arith)
            requires n == k * q, q >= k, k >= 0;
    } else if k < n {
        lemma_least_factor_from(n, k + 1);
    } else {
        // k == n: no divisor below n, so n would be prime.
        assert(prime(n));
    }
}

/// A number of at least 2 that is not prime has a prime factor `p` below it
/// with `p * p <= n`.
pub proof fn lemma_least_prime_factor(n: nat)
    requires
        n >= 2,
        !prime(n),
    ensures
        exists|p: nat| #[trigger] prime(p) && n % p == 0 && p * p <= n && p < n,
{
    lemma_least_factor_from(n, 2);
}


/// Euclid's lemma with the first factor reduced below the prime.
proof fn lemma_euclid_reduced(p: nat, a: nat, b: nat)
    requires
        prime(p),
        0 < a < p,
        (a * b) % p == 0,
    ensures
        b % p == 0,
    decreases a,
{
    if a == 1 {
        vstd::arithmetic::mul::lemma_mul_basics(b as int);
    } else {
        let q = p / a;
        let r = p % a;
        lemma_fundamental_div_mod(p as int, a as int);
        assert(p % a != 0);
        vstd::arithmetic::div_mod::lemma_mod_bound(p as int, a as int);
        assert(0 < r < a);
        // r * b = p * b - q * (a * b), a combination of multiples of p.
        lemma_fundamental_div_mod((a * b) as int, p as int);
        let t = (a * b) / p;
        assert(r * b == p * (b - q * t)) by (nonlinear_arith)
            requires
                p == a * q + r,
                a * b == p * t,
        ;
        assert((r * b) % p == 0) by {
            lemma_mod_multiples_basic((b - q * t) as int, p as int);
            vstd::arithmetic::mul::lemma_mul_is_commutative(p as int, (b - q * t) as int);
        }
        lemma_euclid_reduced(p, r, b);
    }
}

/// Euclid's lemma: a prime that divides a product divides one of the
/// factors.
pub proof fn lemma_euclid(p: nat, a: nat, b: nat)
    requires
        prime(p),
        (a * b) % p == 0,
    ensures
        a % p == 0 || b % p == 0,
{
    if a % p != 0 {
        let ar = a % p;
        vstd::arithmetic::div_mod::lemma_mod_bound(a as int, p as int);
        vstd::arithmetic::div_mod::lemma_mul_mod_noop_left(a as int, b as int, p as int);
        lemma_euclid_reduced(p, ar, b);
    }
}

/// The only prime dividing the square of a prime is that prime.
pub proof fn lemma_prime_square_factor(q: nat, n: nat)
    requires
        prime(q),
        prime(n),
        (n * n) % q == 0,
    ensures
        q == n,
{
    lemma_euclid(q, n, n);
    if q != n {
        if q < n {
            assert(n % q != 0);
        } else {
            lemma_small_mod(n, q);
        }
    }
}


/// Consecutive multiples of `p` are `p` apart.
pub proof fn lemma_next_multiple(p: nat, k: nat, c: nat)
    requires
        p > 0,
        k % p == 0,
        c % p == 0,
        k < c,
    ensures
        k + p <= c,
{
    lemma_fundamental_div_mod(k as int, p as int);
    lemma_fundamental_div_mod(c as int, p as int);
    let a = k / p;
    let b = c / p;
    assert(k + p <= c) by (nonlinear_arith)
        requires k == p * a, c == p * b, k < c, p > 0;
}

/// Adding `p` to a multiple of `p` gives a multiple of `p`.
pub proof fn lemma_add_multiple(p: nat, k: nat)
    requires
        p > 0,
        k % p == 0,
    ensures
        (k + p) % p == 0,
{
    vstd::arithmetic::div_mod::lemma_mod_add_multiples_vanish(k as int, p as int);
}


/// The greatest common divisor of two numbers that are not both 0 is the
/// largest of their common divisors.
pub proof fn lemma_gcd_is_largest(a: nat, b: nat, d: nat)
    requires
        divides(d, a),
        divides(d, b),
        a != 0 || b != 0,
    ensures
        d <= spec_gcd(a, b),
        spec_gcd(a, b) > 0,
{
    lemma_gcd_greatest(a, b, d);
    lemma_gcd_zero(a, b);
    let g = spec_gcd(a, b);
    if d > g {
        lemma_small_mod(g, d);
    }
}

/// There is only one first prime after a number.
pub proof fn lemma_next_prime_unique(q: nat, p1: nat, p2: nat)
    requires
        is_next_prime(q, p1),
        is_next_prime(q, p2),
    ensures
        p1 == p2,
{
    if p1 < p2 {
        assert(!prime(p1));
    } else if p2 < p1 {
        assert(!prime(p2));
    }
}

/// Among `bound + 1` values in `[0, bound)` two are equal.
pub proof fn lemma_pigeonhole(c: spec_fn(nat) -> int, bound: nat) -> (res: (nat, nat))
    requires
        forall|i: nat| i <= bound ==> 0 <= #[trigger] c(i) < bound,
    ensures
        res.0 < res.1 <= bound,
        c(res.0) == c(res.1),
    decreases bound,
{
    if bound == 0 {
        let z: nat = 0;
        assert(c(z) < bound);
        (0, 0)
    } else {
        let v = c(bound);
        if exists|i: nat| i < bound && #[trigger] c(i) == v {
            let i = choose|i: nat| i < bound && #[trigger] c(i) == v;
            (i, bound)
        } else {
            let top = bound - 1;
            let c2 = |i: nat| if c(i) == top { v } else { c(i) };
            assert forall|i: nat| i <= top implies 0 <= #[trigger] c2(i) < top by {
                assert(c(i) != v);
            }
            let (i, j) = lemma_pigeonhole(c2, top as nat);
            assert(c(i) == c(j)) by {
                if c(i) == top && c(j) != top {
                    assert(c(j) == v);
                } else if c(i) != top && c(j) == top {
                    assert(c(i) == v);
                }
            }
            (i, j)
        }
    }
}

} // verus!
