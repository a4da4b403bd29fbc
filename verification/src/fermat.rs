//! Fermat's little theorem, by way of the binomial theorem, and the square
//! roots of 1 modulo a prime.
use vstd::prelude::*;
use vstd::arithmetic::power::{pow, lemma_pow0, lemma_pow1, lemma_pow_adds, lemma_pow_positive, lemma0_pow};
use vstd::arithmetic::div_mod::{lemma_mod_multiples_vanish, lemma_add_mod_noop, lemma_mod_multiples_basic, lemma_small_mod, lemma_mod_twice};
use crate::arith::{prime, lemma_euclid};

verus! {

/// The binomial coefficient `n choose k`, by Pascal's rule.
pub open spec fn binom(n: nat, k: nat) -> nat
    decreases n,
{
    if k == 0 {
        1
    } else if n == 0 {
        0
    } else {
        binom((n - 1) as nat, (k - 1) as nat) + binom((n - 1) as nat, k)
    }
}

/// `n choose k` is 0 once `k` exceeds `n`.
proof fn lemma_binom_above(n: nat, k: nat)
    requires
        k > n,
    ensures
        binom(n, k) == 0,
    decreases n,
{
    if n > 0 {
        lemma_binom_above((n - 1) as nat, (k - 1) as nat);
        lemma_binom_above((n - 1) as nat, k);
    }
}

/// `n choose 1` is `n`.
proof fn lemma_binom_one(n: nat)
    ensures
        binom(n, 1) == n,
    decreases n,
{
    if n > 0 {
        lemma_binom_one((n - 1) as nat);
        assert(binom((n - 1) as nat, 0) == 1);
    }
}

/// `n choose n` is 1.
proof fn lemma_binom_diag(n: nat)
    ensures
        binom(n, n) == 1,
    decreases n,
{
    if n > 0 {
        lemma_binom_diag((n - 1) as nat);
        lemma_binom_above((n - 1) as nat, n);
    }
}

/// The first partial sum is the constant term 1.
proof fn lemma_binom_sum_one(n: nat, x: int)
    ensures
        binom_sum(n, x, 1) == 1,
{
    lemma_pow0(x);
    assert(binom(n, 0) == 1);
    assert(binom_sum(n, x, 0) == 0);
    assert(binom_sum(n, x, 1) == binom_sum(n, x, 0) + binom(n, 0) * pow(x, 0));
}

/// The absorption identity `k * (n choose k) == n * ((n - 1) choose (k - 1))`.
proof fn lemma_binom_absorb(n: nat, k: nat)
    requires
        1 <= k <= n,
    ensures
        k * binom(n, k) == n * binom((n - 1) as nat, (k - 1) as nat),
    decreases n,
{
    if k == 1 {
        lemma_binom_one(n);
        assert(binom((n - 1) as nat, 0) == 1);
    } else {
        let a = binom((n - 1) as nat, (k - 1) as nat);
        let b = binom((n - 1) as nat, k);
        let c = binom((n - 2) as nat, (k - 2) as nat);
        let e = binom((n - 2) as nat, (k - 1) as nat);
        assert(binom(n, k) == a + b);
        assert(a == c + e);
        lemma_binom_absorb((n - 1) as nat, (k - 1) as nat);
        assert((k - 1) * a == (n - 1) * c);
        if k <= n - 1 {
            lemma_binom_absorb((n - 1) as nat, k);
            assert(k * b == (n - 1) * e);
        } else {
            lemma_binom_above((n - 1) as nat, k);
            lemma_binom_above((n - 2) as nat, (k - 1) as nat);
            assert(k * b == (n - 1) * e);
        }
        assert(k * (a + b) == n * a) by (nonlinear_arith)
            requires
                (k - 1) * a == (n - 1) * c,
                k * b == (n - 1) * e,
                a == c + e,
                k >= 1,
                n >= 1,
        ;
    }
}

/// A prime divides `p choose k` for `0 < k < p`.
pub proof fn lemma_prime_divides_binom(p: nat, k: nat)
    requires
        prime(p),
        0 < k < p,
    ensures
        binom(p, k) % p == 0,
{
    lemma_binom_absorb(p, k);
    let c = binom((p - 1) as nat, (k - 1) as nat);
    assert((k * binom(p, k)) % p == 0) by {
        lemma_mod_multiples_basic(c as int, p as int);
        assert(p * c == c * p) by (nonlinear_arith);
    }
    lemma_euclid(p, k, binom(p, k));
    lemma_small_mod(k, p);
}

/// The partial binomial sum `sum of (n choose k) * x^k over k < j`.
pub open spec fn binom_sum(n: nat, x: int, j: nat) -> int
    decreases j,
{
    if j == 0 {
        0
    } else {
        binom_sum(n, x, (j - 1) as nat) + binom(n, (j - 1) as nat) * pow(x, (j - 1) as nat)
    }
}

/// Pascal's rule on partial sums.
proof fn lemma_binom_sum_pascal(n: nat, x: int, j: nat)
    ensures
        binom_sum(n + 1, x, j + 1) == binom_sum(n, x, j + 1) + x * binom_sum(n, x, j),
    decreases j,
{
    lemma_pow0(x);
    if j == 0 {
        lemma_binom_sum_one(n + 1, x);
        lemma_binom_sum_one(n, x);
    } else {
        let jm = (j - 1) as nat;
        lemma_binom_sum_pascal(n, x, jm);
        // x^j == x * x^(j - 1)
        lemma_pow_adds(x, 1, jm);
        lemma_pow1(x);
        let pj = pow(x, j);
        let pjm = pow(x, jm);
        assert(pj == x * pjm);
        assert(binom(n + 1, j) == binom(n, jm) + binom(n, j));
        let s1 = binom_sum(n + 1, x, j);
        let t1 = binom_sum(n, x, j);
        let t0 = binom_sum(n, x, jm);
        let bj = binom(n, j) as int;
        let bjm = binom(n, jm) as int;
        assert(binom_sum(n + 1, x, j + 1) == s1 + (bjm + bj) * pj);
        assert(binom_sum(n, x, j + 1) == t1 + bj * pj);
        assert(t1 == t0 + bjm * pjm);
        assert(s1 == t1 + x * t0);
        assert(s1 + (bjm + bj) * pj == (t1 + bj * pj) + x * t1) by (nonlinear_arith)
            requires
                s1 == t1 + x * t0,
                t1 == t0 + bjm * pjm,
                pj == x * pjm,
        ;
    }
}

/// The binomial theorem: `(x + 1)^n` is the sum of `(n choose k) * x^k`.
pub proof fn lemma_binomial_theorem(n: nat, x: int)
    ensures
        pow(x + 1, n) == binom_sum(n, x, n + 1),
    decreases n,
{
    lemma_pow0(x);
    lemma_pow0(x + 1);
    if n == 0 {
        lemma_binom_sum_one(0, x);
    } else {
        let m = (n - 1) as nat;
        lemma_binomial_theorem(m, x);
        lemma_pow_adds(x + 1, 1, m);
        lemma_pow1(x + 1);
        lemma_binom_sum_pascal(m, x, m + 1);
        lemma_binom_above(m, m + 1);
        assert(binom_sum(m, x, m + 2) == binom_sum(m, x, m + 1));
        let t = binom_sum(m, x, m + 1);
        assert(pow(x + 1, n) == (x + 1) * t);
        assert((x + 1) * t == t + x * t) by (nonlinear_arith);
    }
}

/// Modulo a prime, the inner terms of `(x + 1)^p` vanish.
proof fn lemma_binom_sum_mod_prime(p: nat, x: int, j: nat)
    requires
        prime(p),
        1 <= j <= p,
    ensures
        binom_sum(p, x, j) % (p as int) == 1,
    decreases j,
{
    lemma_pow0(x);
    lemma_small_mod(1, p);
    if j == 1 {
        lemma_binom_sum_one(p, x);
    } else {
        let jm = (j - 1) as nat;
        lemma_binom_sum_mod_prime(p, x, jm);
        lemma_prime_divides_binom(p, jm);
        let c = binom(p, jm) / p;
        vstd::arithmetic::div_mod::lemma_fundamental_div_mod(binom(p, jm) as int, p as int);
        let term = binom(p, jm) * pow(x, jm);
        assert(binom(p, jm) == p * c);
        assert(term == (p as int) * (c * pow(x, jm))) by (nonlinear_arith)
            requires binom(p, jm) == p * c, term == binom(p, jm) * pow(x, jm);
        assert(binom_sum(p, x, j) == binom_sum(p, x, jm) + term);
        lemma_mod_multiples_vanish(c * pow(x, jm), binom_sum(p, x, jm), p as int);
    }
}

/// `(x + 1)^p == x^p + 1` modulo a prime `p`.
pub proof fn lemma_freshmans_dream(p: nat, x: int)
    requires
        prime(p),
    ensures
        pow(x + 1, p) % (p as int) == (pow(x, p) + 1) % (p as int),
{
    lemma_binomial_theorem(p, x);
    lemma_binom_sum_mod_prime(p, x, p);
    lemma_binom_diag(p);
    assert(binom_sum(p, x, p + 1) == binom_sum(p, x, p) + pow(x, p));
    lemma_add_mod_noop(binom_sum(p, x, p), pow(x, p), p as int);
    lemma_add_mod_noop(1, pow(x, p), p as int);
    lemma_small_mod(1, p);
}

/// `a^p == a` modulo a prime `p`.
pub proof fn lemma_fermat(p: nat, a: nat)
    requires
        prime(p),
    ensures
        pow(a as int, p) % (p as int) == (a as int) % (p as int),
    decreases a,
{
    if a == 0 {
        lemma0_pow(p);
    } else {
        let b = (a - 1) as nat;
        lemma_fermat(p, b);
        lemma_freshmans_dream(p, b as int);
        lemma_add_mod_noop(pow(b as int, p), 1, p as int);
        lemma_add_mod_noop(b as int, 1, p as int);
    }
}

/// Fermat's little theorem: `a^(p - 1) == 1` modulo a prime `p` that does
/// not divide `a`.
pub proof fn lemma_fermat_little(p: nat, a: nat)
    requires
        prime(p),
        a % p != 0,
    ensures
        pow(a as int, (p - 1) as nat) % (p as int) == 1,
{
    lemma_fermat(p, a);
    let q = pow(a as int, (p - 1) as nat);
    lemma_pow_adds(a as int, 1, (p - 1) as nat);
    lemma_pow1(a as int);
    assert(a > 0) by {
        if a == 0 {
            lemma_small_mod(0, p);
        }
    }
    lemma_pow_positive(a as int, (p - 1) as nat);
    assert(pow(a as int, p) == a * q);
    // a * (q - 1) is a multiple of p
    vstd::arithmetic::div_mod::lemma_mod_equivalence(a * q, a as int, p as int);
    assert(a * q - a == a * (q - 1)) by (nonlinear_arith);
    let qn = (q - 1) as nat;
    assert((a * qn) % p == 0);
    lemma_euclid(p, a, qn);
    vstd::arithmetic::div_mod::lemma_mod_equivalence(q, 1, p as int);
    lemma_small_mod(1, p);
}

/// The only square roots of 1 modulo a prime are 1 and -1.
pub proof fn lemma_square_root_of_one(p: nat, x: nat)
    requires
        prime(p),
        x < p,
        (x * x) % p == 1,
    ensures
        x == 1 || x == p - 1,
{
    if x == 0 {
        lemma_small_mod(0, p);
    } else {
        vstd::arithmetic::div_mod::lemma_mod_equivalence((x * x) as int, 1, p as int);
        lemma_small_mod(1, p);
        assert(x * x - 1 == (x - 1) * (x + 1)) by (nonlinear_arith);
        let a = (x - 1) as nat;
        let b = (x + 1) as nat;
        assert((a * b) % p == 0);
        lemma_euclid(p, a, b);
        if a % p == 0 {
            lemma_small_mod(a, p);
        } else {
            if b < p {
                lemma_small_mod(b, p);
            } else if b > p {
                assert(false);
            }
        }
    }
}

} // verus!
