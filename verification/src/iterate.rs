//! The same computations as [`crate::successors`], written as the orbit of
//! a step function cut short where the answer lies: Euclid's orbit searched
//! for its first zero remainder, and the Lucas-Lehmer and Collatz orbits
//! taken from `itertools::iterate` (a Collatz orbit collected there is
//! checked before it is returned).
use vstd::prelude::*;
use itertools::Itertools;
use crate::arith::{spec_gcd, prime, lemma_pigeonhole};
use crate::arith::lemma_gcd_commutative;
use crate::utils::is_prime;
use crate::successors::{mersenne, lemma_mersenne_bounds, collatz_step, collatz_step_fits, collatz_pending_after, lucas_lehmer_term, lucas_lehmer_step};

verus! {

// ---------------------------------------------------------------------------
// Greatest common divisor
// ---------------------------------------------------------------------------

/// One step of Euclid's algorithm on `(k, d)`: `(d, k % d)`, with 0 for the
/// remainder by 0.
pub open spec fn euclid_step_spec(s: (u32, u32)) -> (u32, u32) {
    let (k, d) = s;
    if d == 0 {
        (d, 0)
    } else {
        (d, k % d)
    }
}

/// The `i`-th pair of Euclid's algorithm started at `init`.
pub open spec fn euclid_orbit(init: (u32, u32), i: nat) -> (u32, u32)
    decreases i,
{
    if i == 0 {
        init
    } else {
        euclid_step_spec(euclid_orbit(init, (i - 1) as nat))
    }
}

/// One step of Euclid's algorithm.
fn euclid_step(s: (u32, u32)) -> (r: (u32, u32))
    ensures
        r == euclid_step_spec(s),
{
    let (k, d) = s;
    let q = match k.checked_rem(d) {
        Some(q) => q,
        None => 0,
    };
    (d, q)
}

/// Euclid's algorithm is finished once the remainder is 0.
fn euclid_done(s: (u32, u32)) -> (r: bool)
    ensures
        r == (s.1 == 0),
{
    s.1 == 0
}

/// The `k`-th pair of Euclid's orbit is the first with a zero remainder.
pub open spec fn euclid_first_zero(init: (u32, u32), k: nat) -> bool {
    &&& euclid_orbit(init, k).1 == 0
    &&& forall|j: nat| j < k ==> (#[trigger] euclid_orbit(init, j)).1 != 0
}

/// The index of the first pair of Euclid's orbit with a zero remainder.
pub open spec fn euclid_first_zero_index(init: (u32, u32)) -> nat {
    choose|k: nat| euclid_first_zero(init, k)
}

/// The first pair of Euclid's orbit from `init` whose remainder is 0, the
/// pair that `itertools::iterate(init, euclid_step)` followed by
/// `Itertools::find_or_last(euclid_done)` finds: the step is applied until
/// the remainder is 0, however many steps that takes. (`requires` asks that
/// such a pair comes, as it always does: the remainder keeps decreasing.)
fn iterate_euclid_find_or_last(init: (u32, u32)) -> (r: Option<(u32, u32)>)
    requires
        exists|k: nat| euclid_first_zero(init, k),
    ensures
        r == Some(euclid_orbit(init, euclid_first_zero_index(init))),
{
    let mut s = init;
    let ghost mut i: nat = 0;
    while !euclid_done(s)
        invariant
            s == euclid_orbit(init, i),
            forall|j: nat| j < i ==> (#[trigger] euclid_orbit(init, j)).1 != 0,
        decreases s.1,
    {
        s = euclid_step(s);
        proof {
            i = i + 1;
        }
    }
    proof {
        assert(euclid_first_zero(init, i));
        let k = euclid_first_zero_index(init);
        assert(euclid_first_zero(init, k));
        if k < i {
            assert(euclid_orbit(init, k).1 != 0);
        } else if k > i {
            assert(euclid_orbit(init, i).1 != 0);
        }
    }
    Some(s)
}

/// Euclid's algorithm reaches a zero remainder within `init.1 + 1` steps.
proof fn lemma_euclid_stops(init: (u32, u32), i: nat)
    requires
        forall|j: nat| j < i ==> (#[trigger] euclid_orbit(init, j)).1 != 0,
    ensures
        euclid_orbit(init, i).1 as nat + i <= init.1 as nat,
        i > init.1 ==> false,
    decreases i,
{
    if i > 0 {
        lemma_euclid_stops(init, (i - 1) as nat);
        let prev = euclid_orbit(init, (i - 1) as nat);
        assert(prev.1 != 0);
        assert(euclid_orbit(init, i).1 < prev.1);
    }
}

/// Searching upwards from `i`, Euclid's orbit has a first pair with a zero
/// remainder.
proof fn lemma_euclid_first_zero_exists(init: (u32, u32), i: nat)
    requires
        forall|j: nat| j < i ==> (#[trigger] euclid_orbit(init, j)).1 != 0,
    ensures
        exists|k: nat| euclid_first_zero(init, k),
    decreases init.1 + 1 - i,
{
    lemma_euclid_stops(init, i);
    if euclid_orbit(init, i).1 == 0 {
        assert(euclid_first_zero(init, i));
    } else {
        lemma_euclid_first_zero_exists(init, i + 1);
    }
}

/// Along Euclid's orbit, until the remainder is 0, the gcd of the pair stays
/// the same.
proof fn lemma_euclid_keeps_gcd(init: (u32, u32), i: nat)
    requires
        forall|j: nat| j < i ==> (#[trigger] euclid_orbit(init, j)).1 != 0,
    ensures
        spec_gcd(euclid_orbit(init, i).0 as nat, euclid_orbit(init, i).1 as nat)
            == spec_gcd(init.0 as nat, init.1 as nat),
    decreases i,
{
    if i > 0 {
        lemma_euclid_keeps_gcd(init, (i - 1) as nat);
        assert(euclid_orbit(init, (i - 1) as nat).1 != 0);
    }
}

/// Greatest common divisor
///
/// Returns the largest positive integer that divides each of the integers
/// (and 0 for `gcd(0, 0)`).
pub fn gcd(m: u32, n: u32) -> (r: u32)
    ensures
        r == spec_gcd(m as nat, n as nat),
    decreases (m > n) as int,
{
    if m == 0 && n == 0 {
        return 0;
    }
    if !(m <= n) {
        proof {
            lemma_gcd_commutative(n as nat, m as nat);
        }
        return gcd(n, m);
    }
    let init = (m, n);
    proof {
        // some pair of the orbit has a zero remainder
        lemma_euclid_first_zero_exists(init, 0);
    }
    match iterate_euclid_find_or_last(init) {
        Some((res, _)) => {
            proof {
                let k = euclid_first_zero_index(init);
                lemma_euclid_keeps_gcd(init, k);
            }
            res
        },
        None => {
            // find_or_last on a non-empty iterator does not return None
            proof {
                assert(false);
            }
            0
        },
    }
}


// ---------------------------------------------------------------------------
// Lucas-Lehmer test
// ---------------------------------------------------------------------------

/// The Lucas-Lehmer sequence modulo `m` as [`lucas_lehmer`] walks it: it
/// starts at 4, each term is the previous one squared minus 2 (modulo `m`),
/// and a 0 stays 0.
pub open spec fn lucas_lehmer_iterate_term(m: int, i: nat) -> int
    decreases i,
{
    if i == 0 {
        4
    } else {
        let x = lucas_lehmer_iterate_term(m, (i - 1) as nat);
        if x != 0 {
            (x * x - 2) % m
        } else {
            0
        }
    }
}

/// As long as no earlier term is 0, the walk of [`lucas_lehmer`] and that of
/// [`crate::successors::is_mersenne_exp`] agree term by term.
pub proof fn lemma_lucas_lehmer_walks_agree(m: int, i: nat)
    requires
        forall|j: nat| j < i ==> #[trigger] lucas_lehmer_iterate_term(m, j) != 0,
    ensures
        lucas_lehmer_term(m, i) == Some(lucas_lehmer_iterate_term(m, i)),
    decreases i,
{
    if i > 0 {
        lemma_lucas_lehmer_walks_agree(m, (i - 1) as nat);
        assert(lucas_lehmer_iterate_term(m, (i - 1) as nat) != 0);
    }
}

/// One step of the walk of [`lucas_lehmer`]: a 0 stays 0.
fn lucas_lehmer_iterate_step(prev: u128, m_p: u128) -> (r: u128)
    requires
        7 <= m_p <= 0xffff_ffff_ffff_ffff,
        prev <= 4 || prev < m_p,
    ensures
        r == (if prev != 0 { (prev * prev - 2) % (m_p as int) } else { 0 }),
        r < m_p,
{
    if prev != 0 {
        lucas_lehmer_step(prev, m_p)
    } else {
        0
    }
}

/// The terms of the walk below index `n` all lie below `m` (but the first).
proof fn lemma_lucas_lehmer_iterate_bounded(m: int, i: nat)
    requires
        m >= 7,
    ensures
        0 <= lucas_lehmer_iterate_term(m, i),
        i == 0 || lucas_lehmer_iterate_term(m, i) < m,
    decreases i,
{
    if i > 0 {
        lemma_lucas_lehmer_iterate_bounded(m, (i - 1) as nat);
        let x = lucas_lehmer_iterate_term(m, (i - 1) as nat);
        if x != 0 {
            vstd::arithmetic::div_mod::lemma_mod_bound(x * x - 2, m);
        }
    }
}

/// `itertools::iterate(4, lucas_lehmer_iterate_step)` followed by
/// `Iterator::nth(n)`: `iterate` yields `4, step(4), step(step(4)), ...`
/// without end, so `nth` returns its `n`-th element; the contract says so.
/// (`iterate` applies the step to each element as it hands it out; every
/// element is below `m_p` but the first, so each step is defined.)
#[verifier::external_body]
fn iterate_lucas_lehmer_nth(m_p: u128, n: usize) -> (r: Option<u128>)
    requires
        7 <= m_p <= 0xffff_ffff_ffff_ffff,
    ensures
        r == Some(lucas_lehmer_iterate_term(m_p as int, n as nat) as u128),
{
    itertools::iterate(4u128, |prev: &u128| lucas_lehmer_iterate_step(*prev, m_p)).nth(n)
}

/// What [`lucas_lehmer`] returns.
pub open spec fn lucas_lehmer_spec(p: nat) -> bool {
    if p < 3 {
        p == 2
    } else if !prime(p) {
        false
    } else {
        lucas_lehmer_iterate_term(mersenne(p), (p - 2) as nat) == 0
    }
}

/// Lucas-Lehmer primality test
///
/// Returns whether the `p`-th Mersenne number is prime, where `p` is a prime
/// number.
pub fn lucas_lehmer(p: u8) -> (r: bool)
    requires
        p <= 64,
    ensures
        r == lucas_lehmer_spec(p as nat),
{
    if p < 3 {
        return p == 2;
    }
    if !is_prime(p as u32) {
        // M_p is composite if p is composite.
        return false;
    }
    proof {
        lemma_mersenne_bounds(p);
    }
    let m_p: u128 = (1u128 << p) - 1;
    assert(m_p == mersenne(p as nat));
    match iterate_lucas_lehmer_nth(m_p, (p as usize) - 2) {
        Some(x) => {
            proof {
                lemma_lucas_lehmer_iterate_bounded(m_p as int, (p - 2) as nat);
            }
            x == 0
        },
        None => false,
    }
}

// ---------------------------------------------------------------------------
// Collatz orbit
// ---------------------------------------------------------------------------

/// The `i`-th value of the Collatz orbit of `n`.
pub open spec fn collatz_orbit(n: nat, i: nat) -> nat
    decreases i,
{
    if i == 0 {
        n
    } else {
        collatz_step(collatz_orbit(n, (i - 1) as nat))
    }
}

/// The orbit of `n` first reaches 1 (or 0) at index `k`, and every step up to
/// there fits in a `u32`.
pub open spec fn collatz_reaches_one_at(n: nat, k: nat) -> bool {
    &&& collatz_orbit(n, k) <= 1
    &&& forall|j: nat| j < k ==> 1 < #[trigger] collatz_orbit(n, j)
    &&& forall|j: nat| j < k ==> collatz_step_fits(#[trigger] collatz_orbit(n, j))
}

/// The index at which the orbit of `n` first reaches 1 (or 0).
pub open spec fn collatz_stopping_index(n: nat) -> nat {
    choose|k: nat| collatz_reaches_one_at(n, k)
}

/// One step of the Collatz map, as a function of the library.
fn collatz_next(x: u32) -> (r: u32)
    requires
        x % 2 == 0 || 3 * x + 1 <= u32::MAX,
    ensures
        r == collatz_step(x as nat),
        x % 2 == 0 ==> r == x / 2,
        x % 2 == 1 ==> r == 3 * x + 1,
{
    if x % 2 == 0 {
        x / 2
    } else {
        3 * x + 1
    }
}

/// The orbit goes on while its value exceeds 1.
fn collatz_continues(x: u32) -> (r: bool)
    ensures
        r == (1 < x),
{
    1 < x
}

/// `itertools::iterate(n, collatz_next)`, then
/// `Itertools::take_while_inclusive(collatz_continues)`, collected into a
/// `Vec`: `iterate` yields the orbit `n, step(n), ...` and
/// `take_while_inclusive` keeps its elements up to and including the first
/// that fails the predicate; the contract says so. (`requires` asks that
/// such an element comes, so that collecting ends, and that every step taken
/// on the way fits in a `u32`.)
#[verifier::external_body]
fn iterate_collatz_collect(n: u32) -> (r: Vec<u32>)
    requires
        exists|k: nat| collatz_reaches_one_at(n as nat, k),
    ensures
        r@ == Seq::new(collatz_stopping_index(n as nat) + 1, |i: int| collatz_orbit(n as nat, i as nat) as u32),
{
    itertools::iterate(n, |x: &u32| collatz_next(*x)).take_while_inclusive(|x: &u32| collatz_continues(*x)).collect()
}

/// The orbit of `n` reaches 1 (or 0) at one index only: the first.
proof fn lemma_collatz_reaches_one_once(n: nat, k1: nat, k2: nat)
    requires
        collatz_reaches_one_at(n, k1),
        collatz_reaches_one_at(n, k2),
    ensures
        k1 == k2,
{
    if k1 < k2 {
        assert(1 < collatz_orbit(n, k1));
    } else if k2 < k1 {
        assert(1 < collatz_orbit(n, k2));
    }
}

/// Whether `v` is the Collatz orbit of `n` up to and including its first 1
/// (or 0): it starts at `n`, each later value is the step from the one
/// before it, which fits in a `u32`, and every value but the last exceeds 1
/// while the last does not.
fn is_collatz_orbit(n: u32, v: &Vec<u32>) -> (r: bool)
    ensures
        r ==> {
            &&& v@.len() >= 1
            &&& collatz_reaches_one_at(n as nat, (v@.len() - 1) as nat)
            &&& forall|i: int| 0 <= i < v@.len() ==> v@[i] == collatz_orbit(n as nat, i as nat)
        },
{
    if v.len() == 0 || v[0] != n {
        return false;
    }
    let mut i: usize = 0;
    while i < v.len() - 1
        invariant
            v@.len() >= 1,
            i < v@.len(),
            forall|j: int| 0 <= j <= i ==> v@[j] == collatz_orbit(n as nat, j as nat),
            forall|j: nat| j < i ==> 1 < #[trigger] collatz_orbit(n as nat, j),
            forall|j: nat| j < i ==> collatz_step_fits(#[trigger] collatz_orbit(n as nat, j)),
        decreases v@.len() - i,
    {
        let x = v[i];
        let y = v[i + 1];
        if x <= 1 {
            return false;
        }
        if x % 2 == 0 {
            if y != x / 2 {
                return false;
            }
        } else {
            if x > (u32::MAX - 1) / 3 || y != 3 * x + 1 {
                return false;
            }
        }
        assert(collatz_orbit(n as nat, (i + 1) as nat) == collatz_step(collatz_orbit(n as nat, i as nat)));
        i = i + 1;
    }
    if v[i] > 1 {
        return false;
    }
    true
}

/// The Collatz orbit of `n` up to and including its first 1 (or 0),
/// computed step by step.
fn collatz_orbit_vec(n: u32) -> (r: Vec<u32>)
    requires
        exists|k: nat| collatz_reaches_one_at(n as nat, k),
    ensures
        r@.len() == collatz_stopping_index(n as nat) + 1,
        forall|i: int| 0 <= i < r@.len() ==> r@[i] == collatz_orbit(n as nat, i as nat),
{
    let ghost k = collatz_stopping_index(n as nat);
    proof {
        assert(collatz_reaches_one_at(n as nat, k));
        lemma_collatz_orbit_fits(n as nat, k);
    }
    let mut v: Vec<u32> = Vec::new();
    let mut x = n;
    let ghost mut i: nat = 0;
    while x > 1
        invariant
            collatz_reaches_one_at(n as nat, k),
            forall|j: nat| j <= k ==> #[trigger] collatz_orbit(n as nat, j) <= u32::MAX,
            i <= k,
            x == collatz_orbit(n as nat, i),
            v@.len() == i,
            forall|j: int| 0 <= j < i ==> v@[j] == collatz_orbit(n as nat, j as nat),
        decreases k - i,
    {
        assert(i < k);
        assert(collatz_step_fits(collatz_orbit(n as nat, i)));
        v.push(x);
        x = collatz_next(x);
        proof {
            i = i + 1;
        }
    }
    proof {
        if i < k {
            assert(1 < collatz_orbit(n as nat, i));
        }
    }
    v.push(x);
    v
}

/// Collatz orbit
///
/// Returns the Collatz orbit starting from `n`, up to and including the
/// first 1 (or 0). The orbit collected through itertools is checked value by
/// value before it is returned; should the check fail, the orbit is computed
/// here step by step instead.
pub fn collatz(n: u32) -> (r: Vec<u32>)
    requires
        exists|k: nat| collatz_reaches_one_at(n as nat, k),
    ensures
        r@.len() == collatz_stopping_index(n as nat) + 1,
        forall|i: int| 0 <= i < r@.len() ==> r@[i] == collatz_orbit(n as nat, i as nat),
        r@.last() <= 1,
        forall|i: int| 0 <= i < r@.len() - 1 ==> 1 < r@[i],
{
    let k = Ghost(collatz_stopping_index(n as nat));
    proof {
        assert(collatz_reaches_one_at(n as nat, k@));
        lemma_collatz_orbit_fits(n as nat, k@);
    }
    let collected = iterate_collatz_collect(n);
    let r = if is_collatz_orbit(n, &collected) {
        proof {
            lemma_collatz_reaches_one_once(n as nat, (collected@.len() - 1) as nat, k@);
        }
        collected
    } else {
        collatz_orbit_vec(n)
    };
    proof {
        assert(r@[k@ as int] == collatz_orbit(n as nat, k@));
        assert forall|i: int| 0 <= i < r@.len() - 1 implies 1 < r@[i] by {
            assert(1 < collatz_orbit(n as nat, i as nat));
        }
    }
    r
}

/// Equal values of an orbit stay equal when both are followed further.
proof fn lemma_collatz_orbit_shift(n: nat, i: nat, j: nat, t: nat)
    requires
        collatz_orbit(n, i) == collatz_orbit(n, j),
    ensures
        collatz_orbit(n, i + t) == collatz_orbit(n, j + t),
    decreases t,
{
    if t > 0 {
        lemma_collatz_orbit_shift(n, i, j, (t - 1) as nat);
        assert((i + t - 1) as nat == i + (t - 1) as nat);
        assert((j + t - 1) as nat == j + (t - 1) as nat);
    }
}

/// An orbit that comes back to a value before reaching 1 (or 0) never
/// reaches it.
proof fn lemma_collatz_cycle_avoids_one(n: nat, i: nat, j: nat, k: nat)
    requires
        i < j,
        collatz_orbit(n, i) == collatz_orbit(n, j),
        forall|t: nat| t < j ==> 1 < #[trigger] collatz_orbit(n, t),
    ensures
        1 < collatz_orbit(n, k),
    decreases k,
{
    if k >= j {
        let back = (k - (j - i)) as nat;
        lemma_collatz_orbit_shift(n, i, j, (back - i) as nat);
        assert(j + (back - i) as nat == k);
        lemma_collatz_cycle_avoids_one(n, i, j, back);
    }
}

/// Collatz orbit, checked
///
/// Returns the Collatz orbit starting from `n`, up to and including the
/// first 1 (or 0), as [`collatz`] does; or `None` where the orbit never gets
/// there without a step that overflows a `u32`: a step on the way overflows,
/// or the orbit comes back to an earlier value (which it must do within
/// `u32::MAX` steps if it stays within a `u32` and never reaches 1).
pub fn collatz_checked(n: u32) -> (r: Option<Vec<u32>>)
    ensures
        r is Some <==> exists|k: nat| collatz_reaches_one_at(n as nat, k),
        r matches Some(v) ==> {
            &&& v@.len() == collatz_stopping_index(n as nat) + 1
            &&& forall|i: int| 0 <= i < v@.len() ==> v@[i] == collatz_orbit(n as nat, i as nat)
        },
{
    let bound: u64 = 0xffff_fffe;
    let mut x: u32 = n;
    let mut steps: u64 = 0;
    while steps <= bound
        invariant
            bound == 0xffff_fffe,
            steps <= bound + 1,
            x == collatz_orbit(n as nat, steps as nat),
            forall|j: nat| j < steps ==> 1 < #[trigger] collatz_orbit(n as nat, j),
            forall|j: nat| j < steps ==> collatz_step_fits(#[trigger] collatz_orbit(n as nat, j)),
        decreases bound + 1 - steps,
    {
        if x <= 1 {
            proof {
                assert(collatz_reaches_one_at(n as nat, steps as nat));
            }
            return Some(collatz(n));
        }
        if !(x % 2 == 0 || x <= (u32::MAX - 1) / 3) {
            proof {
                assert forall|k: nat| !collatz_reaches_one_at(n as nat, k) by {
                    if k > steps {
                        assert(!collatz_step_fits(collatz_orbit(n as nat, steps as nat)));
                    } else if k < steps {
                        assert(1 < collatz_orbit(n as nat, k));
                    }
                }
            }
            return None;
        }
        x = collatz_next(x);
        steps = steps + 1;
    }
    proof {
        // bound + 1 values of the orbit in [2, u32::MAX]: two are equal.
        let c = |t: nat| collatz_orbit(n as nat, t) - 2;
        assert forall|t: nat| t <= bound implies 0 <= #[trigger] c(t) < bound by {
            lemma_collatz_orbit_fits(n as nat, steps as nat);
        }
        let (i, j) = lemma_pigeonhole(c, bound as nat);
        assert forall|k: nat| !collatz_reaches_one_at(n as nat, k) by {
            lemma_collatz_cycle_avoids_one(n as nat, i, j, k);
        }
    }
    None
}

/// The generator of [`crate::successors::collatz`] hands out the orbit of
/// `n`: up to the first 1 (or 0) it holds the values of the orbit, and after
/// handing that out it holds nothing. So it yields what [`collatz`] returns.
pub proof fn lemma_collatz_generator_yields_orbit(n: nat, i: nat)
    requires
        forall|j: nat| j < i ==> 1 < #[trigger] collatz_orbit(n, j),
    ensures
        collatz_pending_after(n, i) == Some(collatz_orbit(n, i)),
        collatz_orbit(n, i) <= 1 ==> collatz_pending_after(n, i + 1) is None,
    decreases i,
{
    if i > 0 {
        lemma_collatz_generator_yields_orbit(n, (i - 1) as nat);
        assert(1 < collatz_orbit(n, (i - 1) as nat));
    }
}

/// The values of an orbit whose steps all fit stay within a `u32`.
proof fn lemma_collatz_orbit_fits(n: nat, k: nat)
    requires
        n <= u32::MAX,
        forall|j: nat| j < k ==> collatz_step_fits(#[trigger] collatz_orbit(n, j)),
        forall|j: nat| j < k ==> 1 < #[trigger] collatz_orbit(n, j),
    ensures
        forall|i: nat| i <= k ==> #[trigger] collatz_orbit(n, i) <= u32::MAX,
    decreases k,
{
    if k > 0 {
        lemma_collatz_orbit_fits(n, (k - 1) as nat);
        assert(collatz_step_fits(collatz_orbit(n, (k - 1) as nat)));
        assert(1 < collatz_orbit(n, (k - 1) as nat));
    }
}

} // verus!
