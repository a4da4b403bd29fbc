//! The orbit of a value under a function, and the tail length and cycle
//! length of an orbit that repeats.
use vstd::prelude::*;

verus! {

/// The value the function `f` gives for `x`.
pub open spec fn next_of<T, F: Fn(&T) -> T>(f: F, x: T) -> T {
    choose|y: T| call_ensures(f, (&x,), y)
}

/// `f` returns one value for each argument.
pub open spec fn deterministic<T, F: Fn(&T) -> T>(f: F) -> bool {
    forall|x: T, y: T, z: T|
        call_ensures(f, (&x,), y) && call_ensures(f, (&x,), z) ==> y == z
}

/// `f` can be called on every value.
pub open spec fn total<T, F: Fn(&T) -> T>(f: F) -> bool {
    forall|x: T| call_requires(f, (&x,))
}

/// The `i`-th value of the orbit of `x0` under `f`: `x0, f(x0), f(f(x0)), ...`
pub open spec fn orbit<T, F: Fn(&T) -> T>(f: F, x0: T, i: nat) -> T
    decreases i,
{
    if i == 0 {
        x0
    } else {
        next_of(f, orbit(f, x0, (i - 1) as nat))
    }
}

/// The orbit comes back to an earlier value within its first `bound` steps.
pub open spec fn repeats_within<T, F: Fn(&T) -> T>(f: F, x0: T, bound: nat) -> bool {
    exists|m: nat, l: nat| l >= 1 && m + l <= bound && #[trigger] orbit(f, x0, m + l) == orbit(f, x0, m)
}

/// `mu` is the length of the tail of the orbit and `lambda` the length of
/// its cycle: the values before index `mu` never come back, and the value at
/// `mu` comes back first after `lambda` steps.
pub open spec fn tail_and_cycle<T, F: Fn(&T) -> T>(f: F, x0: T, mu: nat, lambda: nat) -> bool {
    &&& lambda >= 1
    &&& orbit(f, x0, mu + lambda) == orbit(f, x0, mu)
    &&& forall|k: nat| 1 <= k < lambda ==> #[trigger] orbit(f, x0, mu + k) != orbit(f, x0, mu)
    &&& forall|i: nat, j: nat| i < j && i < mu ==> #[trigger] orbit(f, x0, i) != #[trigger] orbit(f, x0, j)
}

/// A call of a deterministic function returns the next value of the orbit.
pub proof fn lemma_call_is_next<T, F: Fn(&T) -> T>(f: F, x: T, y: T)
    requires
        deterministic(f),
        call_ensures(f, (&x,), y),
    ensures
        next_of(f, x) == y,
{
}

/// The orbit of `x0` followed for `i + 1` steps.
pub proof fn lemma_orbit_succ<T, F: Fn(&T) -> T>(f: F, x0: T, i: nat)
    ensures
        orbit(f, x0, i + 1) == next_of(f, orbit(f, x0, i)),
{
}

/// Equal values stay equal when both are followed for `t` more steps.
pub proof fn lemma_orbit_shift<T, F: Fn(&T) -> T>(f: F, x0: T, i: nat, j: nat, t: nat)
    requires
        orbit(f, x0, i) == orbit(f, x0, j),
    ensures
        orbit(f, x0, i + t) == orbit(f, x0, j + t),
    decreases t,
{
    if t > 0 {
        lemma_orbit_shift(f, x0, i, j, (t - 1) as nat);
        lemma_orbit_succ(f, x0, (i + t - 1) as nat);
        lemma_orbit_succ(f, x0, (j + t - 1) as nat);
    }
}

/// Searching upwards from `i` for the first index whose value comes back.
proof fn lemma_find_tail<T, F: Fn(&T) -> T>(f: F, x0: T, i: nat, m: nat, l: nat) -> (mu: nat)
    requires
        i <= m,
        l >= 1,
        orbit(f, x0, m + l) == orbit(f, x0, m),
        forall|a: nat, b: nat| a < b && a < i ==> #[trigger] orbit(f, x0, a) != #[trigger] orbit(f, x0, b),
    ensures
        i <= mu <= m,
        exists|j: nat| mu < j && #[trigger] orbit(f, x0, j) == orbit(f, x0, mu),
        forall|a: nat, b: nat| a < b && a < mu ==> #[trigger] orbit(f, x0, a) != #[trigger] orbit(f, x0, b),
    decreases m - i,
{
    if exists|j: nat| i < j && #[trigger] orbit(f, x0, j) == orbit(f, x0, i) {
        i
    } else {
        assert(i != m) by {
            if i == m {
                assert(orbit(f, x0, m + l) == orbit(f, x0, m));
            }
        }
        assert forall|a: nat, b: nat| a < b && a < i + 1 implies #[trigger] orbit(f, x0, a) != #[trigger] orbit(f, x0, b) by {
            if a == i {
                assert(!(i < b && orbit(f, x0, b) == orbit(f, x0, i)));
            }
        }
        lemma_find_tail(f, x0, i + 1, m, l)
    }
}

/// Searching upwards from `k` for the first return of the value at `mu`.
proof fn lemma_find_cycle<T, F: Fn(&T) -> T>(f: F, x0: T, mu: nat, k: nat, j: nat) -> (lambda: nat)
    requires
        1 <= k <= j - mu,
        mu < j,
        orbit(f, x0, j) == orbit(f, x0, mu),
        forall|k2: nat| 1 <= k2 < k ==> #[trigger] orbit(f, x0, mu + k2) != orbit(f, x0, mu),
    ensures
        k <= lambda <= j - mu,
        orbit(f, x0, mu + lambda) == orbit(f, x0, mu),
        forall|k2: nat| 1 <= k2 < lambda ==> #[trigger] orbit(f, x0, mu + k2) != orbit(f, x0, mu),
    decreases j - mu - k,
{
    if orbit(f, x0, mu + k) == orbit(f, x0, mu) {
        k
    } else {
        assert(k != j - mu);
        lemma_find_cycle(f, x0, mu, k + 1, j)
    }
}

/// Past the tail, the orbit repeats every `q` cycles.
pub proof fn lemma_orbit_periodic<T, F: Fn(&T) -> T>(f: F, x0: T, mu: nat, lambda: nat, i: nat, q: nat)
    requires
        orbit(f, x0, mu + lambda) == orbit(f, x0, mu),
        mu <= i,
    ensures
        orbit(f, x0, i + q * lambda) == orbit(f, x0, i),
    decreases q,
{
    if q == 0 {
        assert(q * lambda == 0) by (nonlinear_arith) requires q == 0;
    } else {
        // orbit(i + lambda) == orbit(i)
        lemma_orbit_shift(f, x0, mu + lambda, mu, (i - mu) as nat);
        lemma_orbit_periodic(f, x0, mu, lambda, i + lambda, (q - 1) as nat);
        assert(i + lambda + (q - 1) * lambda == i + q * lambda) by (nonlinear_arith)
            requires q > 0;
    }
}

/// Past the tail, two values of the orbit are equal exactly when their
/// indices differ by a multiple of the cycle length; a value of the tail
/// never comes back.
pub proof fn lemma_orbit_equal_iff<T, F: Fn(&T) -> T>(f: F, x0: T, mu: nat, lambda: nat, i: nat, j: nat)
    requires
        tail_and_cycle(f, x0, mu, lambda),
        i <= j,
    ensures
        orbit(f, x0, i) == orbit(f, x0, j) <==> (i == j || (mu <= i && (j - i) % (lambda as int) == 0)),
{
    if i < j && i < mu {
        assert(orbit(f, x0, i) != orbit(f, x0, j));
    } else if i < j {
        let d = (j - i) as nat;
        let r = d % lambda;
        let q = d / lambda;
        vstd::arithmetic::div_mod::lemma_fundamental_div_mod(d as int, lambda as int);
        vstd::arithmetic::div_mod::lemma_mod_bound(d as int, lambda as int);
        assert(d == q * lambda + r) by (nonlinear_arith)
            requires d == lambda * q + r;
        lemma_orbit_periodic(f, x0, mu, lambda, i + r, q);
        assert(i + r + q * lambda == j);
        // orbit(j) == orbit(i + r)
        if orbit(f, x0, i) == orbit(f, x0, j) && r != 0 {
            // move both forward to a point aligned with mu
            let t = ((i - mu) as nat) % lambda;
            let s = ((lambda - t) as nat) % lambda;
            vstd::arithmetic::div_mod::lemma_mod_bound((i - mu) as int, lambda as int);
            vstd::arithmetic::div_mod::lemma_fundamental_div_mod((i - mu) as int, lambda as int);
            let q1 = ((i - mu) as nat) / lambda;
            // i + s == mu + q2 * lambda
            let q2: nat = if t == 0 { q1 } else { q1 + 1 };
            assert(i + s == mu + q2 * lambda) by {
                if t == 0 {
                    vstd::arithmetic::div_mod::lemma_small_mod(0, lambda);
                    assert(s == 0) by {
                        vstd::arithmetic::div_mod::lemma_mod_self_0(lambda as int);
                    }
                    assert((i - mu) == lambda * q1);
                    assert(lambda * q1 == q1 * lambda) by (nonlinear_arith);
                } else {
                    vstd::arithmetic::div_mod::lemma_small_mod((lambda - t) as nat, lambda);
                    assert((i - mu) == lambda * q1 + t);
                    assert(lambda * q1 + lambda == (q1 + 1) * lambda) by (nonlinear_arith);
                }
            }
            lemma_orbit_shift(f, x0, i, i + r, s);
            lemma_orbit_periodic(f, x0, mu, lambda, mu, q2);
            lemma_orbit_periodic(f, x0, mu, lambda, mu + r, q2);
            assert(i + r + s == mu + r + q2 * lambda);
            assert(orbit(f, x0, mu + r) == orbit(f, x0, mu));
            assert(false);
        }
        if r == 0 {
            assert(orbit(f, x0, i) == orbit(f, x0, j));
        }
    }
}

/// An orbit that comes back within `bound` steps has a tail and a cycle
/// whose lengths add up to at most `bound`.
pub proof fn lemma_tail_and_cycle_exist<T, F: Fn(&T) -> T>(f: F, x0: T, bound: nat) -> (res: (nat, nat))
    requires
        repeats_within(f, x0, bound),
    ensures
        tail_and_cycle(f, x0, res.0, res.1),
        res.0 + res.1 <= bound,
{
    let (m, l) = choose|m: nat, l: nat| l >= 1 && m + l <= bound && #[trigger] orbit(f, x0, m + l) == orbit(f, x0, m);
    let mu = lemma_find_tail(f, x0, 0, m, l);
    let j = choose|j: nat| mu < j && #[trigger] orbit(f, x0, j) == orbit(f, x0, mu);
    let lambda = lemma_find_cycle(f, x0, mu, 1, j);
    assert(tail_and_cycle(f, x0, mu, lambda));
    // lambda divides l, so lambda <= l
    lemma_orbit_equal_iff(f, x0, mu, lambda, m, m + l);
    assert((l as int) % (lambda as int) == 0);
    vstd::arithmetic::div_mod::lemma_fundamental_div_mod(l as int, lambda as int);
    assert(lambda <= l) by (nonlinear_arith)
        requires l == lambda * (l / lambda), l >= 1, lambda >= 1;
    (mu, lambda)
}

/// The tail and cycle lengths of an orbit are unique.
pub proof fn lemma_tail_and_cycle_unique<T, F: Fn(&T) -> T>(f: F, x0: T, mu1: nat, l1: nat, mu2: nat, l2: nat)
    requires
        tail_and_cycle(f, x0, mu1, l1),
        tail_and_cycle(f, x0, mu2, l2),
    ensures
        mu1 == mu2,
        l1 == l2,
{
    if mu1 < mu2 {
        assert(orbit(f, x0, mu1) != orbit(f, x0, mu1 + l1));
    } else if mu2 < mu1 {
        assert(orbit(f, x0, mu2) != orbit(f, x0, mu2 + l2));
    }
    if l1 < l2 {
        assert(orbit(f, x0, mu1 + l1) != orbit(f, x0, mu1));
    } else if l2 < l1 {
        assert(orbit(f, x0, mu2 + l2) != orbit(f, x0, mu2));
    }
}


/// The orbit of `f(x0)` is the orbit of `x0` one step on.
pub proof fn lemma_orbit_from_next<T, F: Fn(&T) -> T>(f: F, x0: T, i: nat)
    ensures
        orbit(f, next_of(f, x0), i) == orbit(f, x0, i + 1),
    decreases i,
{
    assert(orbit(f, x0, 0) == x0);
    lemma_orbit_succ(f, x0, i);
    if i > 0 {
        lemma_orbit_from_next(f, x0, (i - 1) as nat);
        lemma_orbit_succ(f, next_of(f, x0), (i - 1) as nat);
    }
}

/// Starting one step later shortens the tail by one (if there is a tail) and
/// keeps the cycle length.
pub proof fn lemma_tail_and_cycle_shift<T, F: Fn(&T) -> T>(f: F, x0: T, mu: nat, lambda: nat)
    requires
        tail_and_cycle(f, x0, mu, lambda),
    ensures
        tail_and_cycle(f, next_of(f, x0), if mu > 0 { (mu - 1) as nat } else { 0 }, lambda),
{
    let y = next_of(f, x0);
    let mu2: nat = if mu > 0 { (mu - 1) as nat } else { 0 };
    lemma_orbit_from_next(f, x0, mu2);
    lemma_orbit_from_next(f, x0, mu2 + lambda);
    lemma_orbit_equal_iff(f, x0, mu, lambda, mu2 + 1, mu2 + 1 + lambda);
    vstd::arithmetic::div_mod::lemma_mod_self_0(lambda as int);
    assert forall|k: nat| 1 <= k < lambda implies #[trigger] orbit(f, y, mu2 + k) != orbit(f, y, mu2) by {
        lemma_orbit_from_next(f, x0, mu2 + k);
        lemma_orbit_equal_iff(f, x0, mu, lambda, mu2 + 1, mu2 + 1 + k);
        vstd::arithmetic::div_mod::lemma_small_mod(k, lambda);
    }
    assert forall|i: nat, j: nat| i < j && i < mu2 implies #[trigger] orbit(f, y, i) != #[trigger] orbit(f, y, j) by {
        lemma_orbit_from_next(f, x0, i);
        lemma_orbit_from_next(f, x0, j);
        assert(orbit(f, x0, i + 1) != orbit(f, x0, j + 1));
    }
}

/// An orbit that comes back within `bound` steps still does when started one
/// step later.
pub proof fn lemma_repeats_within_shift<T, F: Fn(&T) -> T>(f: F, x0: T, bound: nat)
    requires
        repeats_within(f, x0, bound),
    ensures
        repeats_within(f, next_of(f, x0), bound),
{
    let (mu, lambda) = lemma_tail_and_cycle_exist(f, x0, bound);
    lemma_tail_and_cycle_shift(f, x0, mu, lambda);
    let mu2: nat = if mu > 0 { (mu - 1) as nat } else { 0 };
    assert(orbit(f, next_of(f, x0), mu2 + lambda) == orbit(f, next_of(f, x0), mu2));
}


/// The orbit comes back to an earlier value with a tail shorter than `2^30`
/// and a cycle of at most `2^30` steps: within the blocks of doubling length
/// that Brent's algorithm walks.
pub open spec fn repeats_within_blocks<T, F: Fn(&T) -> T>(f: F, x0: T) -> bool {
    exists|m: nat, l: nat|
        l >= 1 && m < 0x4000_0000 && l <= 0x4000_0000 && #[trigger] orbit(f, x0, m + l) == orbit(f, x0, m)
}

/// Any return of the orbit bounds its tail and cycle lengths: the tail ends
/// at or before the returning index, and the cycle length divides the gap.
pub proof fn lemma_tail_and_cycle_bounded<T, F: Fn(&T) -> T>(f: F, x0: T, mu: nat, lambda: nat, m: nat, l: nat)
    requires
        tail_and_cycle(f, x0, mu, lambda),
        l >= 1,
        orbit(f, x0, m + l) == orbit(f, x0, m),
    ensures
        mu <= m,
        lambda <= l,
{
    lemma_orbit_equal_iff(f, x0, mu, lambda, m, m + l);
    assert((l as int) % (lambda as int) == 0);
    vstd::arithmetic::div_mod::lemma_fundamental_div_mod(l as int, lambda as int);
    assert(lambda <= l) by (nonlinear_arith)
        requires l == lambda * (l / lambda), l >= 1, lambda >= 1;
}

/// Wherever Brent's algorithm can run, Floyd's can too; as both return the
/// tail and cycle lengths, which are unique, they return the same.
pub proof fn lemma_blocks_within_bound<T, F: Fn(&T) -> T>(f: F, x0: T, bound: nat)
    requires
        repeats_within_blocks(f, x0),
        bound >= 0x8000_0000,
    ensures
        repeats_within(f, x0, bound),
{
    let (m, l) = choose|m: nat, l: nat|
        l >= 1 && m < 0x4000_0000 && l <= 0x4000_0000 && #[trigger] orbit(f, x0, m + l) == orbit(f, x0, m);
    assert(orbit(f, x0, m + l) == orbit(f, x0, m));
}

} // verus!
