//! The sequences of the library, each driven step by step.
use vstd::prelude::*;
use crate::arith::{spec_gcd, lemma_pigeonhole, lemma_gcd_commutative, prime, is_next_prime, no_prime_in, lemma_least_prime_factor, lemma_prime_square_factor, lemma_next_multiple, lemma_add_multiple};
use std::collections::HashMap;
use crate::utils::{is_prime, miller_rabin_u32};
use crate::cycle::{next_of, total, deterministic, orbit, repeats_within, repeats_within_blocks, lemma_blocks_within_bound, lemma_tail_and_cycle_bounded, tail_and_cycle, lemma_call_is_next, lemma_orbit_succ, lemma_orbit_equal_iff, lemma_tail_and_cycle_exist};
use vstd::laws_eq::obeys_concrete_eq;
use vstd::arithmetic::power2::{pow2, lemma2_to64, lemma_pow2_pos, lemma_pow2_strictly_increases};

verus! {

/// Greatest common divisor
///
/// Returns the largest positive integer that divides each of the integers
/// (and 0 for `gcd(0, 0)`).
pub fn gcd(m: u32, n: u32) -> (r: u32)
    ensures
        r == spec_gcd(m as nat, n as nat),
    decreases (m > n) as int,
{
    if m == 0 && n == 0 {
        return 0;
    }
    if !(m <= n) {
        proof { lemma_gcd_commutative(n as nat, m as nat); }
        return gcd(n, m);
    }
    let mut k = m;
    let mut d = n;
    while d != 0
        invariant
            spec_gcd(k as nat, d as nat) == spec_gcd(m as nat, n as nat),
        decreases d,
    {
        let q = k % d;
        k = d;
        d = q;
    }
    k
}


/// The incremental sieve of [`primes`]: every number up to `pred` has been
/// examined, and `map` sends each upcoming composite it knows of to a prime
/// factor of it.
pub struct Primes {
    map: HashMap<u32, u32>,
    pred: u32,
    first: bool,
}

/// Every multiple `c` of `p` beyond `pred` (and at least `p * p`) is a key of
/// `m`, or `p` is already waiting at a key before `c`.
pub open spec fn sieve_covers(m: Map<u32, u32>, pred: nat, p: nat, c: nat) -> bool {
    ||| m.contains_key(c as u32)
    ||| exists|k: u32| #[trigger] m.contains_key(k) && m[k] == p && pred < k < c
}

impl Primes {
    /// The last prime handed out, or 1 before the first.
    pub closed spec fn last(&self) -> nat {
        if self.first {
            1
        } else {
            self.pred as nat
        }
    }

    /// The sieve's invariant.
    pub closed spec fn wf(&self) -> bool {
        &&& self.first ==> self.pred == 2
        &&& sieve_wf(self.map@, self.pred as nat)
    }
}

/// The invariant of the incremental sieve once every number up to `pred` has
/// been examined: each key is a composite beyond `pred` sent to a prime
/// factor of it already passed, and every multiple of a passed prime that is
/// still to come is covered.
pub open spec fn sieve_wf(m: Map<u32, u32>, pred: nat) -> bool {
    &&& 2 <= pred <= u32::MAX
    &&& forall|k: u32| #[trigger] m.contains_key(k) ==> {
        &&& prime(m[k] as nat)
        &&& m[k] <= pred
        &&& pred < k
        &&& k % m[k] == 0
        &&& m[k] * m[k] <= k
    }
    &&& forall|p: nat, c: nat|
        prime(p) && p <= pred && pred < c <= u32::MAX && p * p <= c && c % p == 0
            ==> #[trigger] sieve_covers(m, pred, p, c)
}

/// A number just past the examined range that the sieve has not marked is
/// prime.
proof fn lemma_unmarked_is_prime(m: Map<u32, u32>, pred: nat, n: u32)
    requires
        sieve_wf(m, pred),
        n == pred + 1,
        !m.contains_key(n),
    ensures
        prime(n as nat),
{
    if !prime(n as nat) {
        lemma_least_prime_factor(n as nat);
        let p = choose|p: nat| #[trigger] prime(p) && (n as nat) % p == 0 && p * p <= n && p < n;
        assert(sieve_covers(m, pred, p, n as nat));
    }
}

/// Marking the square of a newly found prime `n` keeps the sieve's invariant.
proof fn lemma_after_prime(old_m: Map<u32, u32>, pred: nat, n: u32, new_m: Map<u32, u32>)
    requires
        sieve_wf(old_m, pred),
        n == pred + 1,
        prime(n as nat),
        !old_m.contains_key(n),
        (n * n <= u32::MAX) ==> new_m == old_m.insert((n * n) as u32, n),
        (n * n > u32::MAX) ==> new_m == old_m,
    ensures
        sieve_wf(new_m, n as nat),
{
    let sq = n * n;
    if sq <= u32::MAX {
        assert(n * n >= n + 1) by (nonlinear_arith) requires n >= 2;
        if old_m.contains_key(sq as u32) {
            lemma_prime_square_factor(old_m[sq as u32] as nat, n as nat);
        }
        assert(!old_m.contains_key(sq as u32));
        assert((sq as u32) % n == 0) by {
            vstd::arithmetic::div_mod::lemma_mod_multiples_basic(n as int, n as int);
        }
    }
    assert forall|k: u32| #[trigger] new_m.contains_key(k) implies {
        &&& prime(new_m[k] as nat)
        &&& new_m[k] <= n
        &&& n < k
        &&& k % new_m[k] == 0
        &&& new_m[k] * new_m[k] <= k
    } by {
        if sq <= u32::MAX && k == sq as u32 {
        } else {
            assert(old_m.contains_key(k));
        }
    }
    assert forall|p: nat, c: nat|
        prime(p) && p <= n && n < c <= u32::MAX && p * p <= c && c % p == 0
        implies #[trigger] sieve_covers(new_m, n as nat, p, c) by {
        if p < n {
            assert(sieve_covers(old_m, pred, p, c));
            if old_m.contains_key(c as u32) {
                assert(new_m.contains_key(c as u32));
            } else {
                let k = choose|k: u32| #[trigger] old_m.contains_key(k) && old_m[k] == p && pred < k < c;
                assert(k != n);
                assert(new_m.contains_key(k) && new_m[k] == p && n < k < c);
            }
        } else {
            assert(p == n);
            if c != sq {
                assert(new_m.contains_key(sq as u32) && new_m[sq as u32] == p && n < sq < c);
            } else {
                assert(new_m.contains_key(c as u32));
            }
        }
    }
}

/// Moving a prime from the composite `n` to its next unmarked multiple (or
/// dropping it when no multiple is left) keeps the sieve's invariant.
proof fn lemma_after_composite(
    old_m: Map<u32, u32>,
    pred: nat,
    n: u32,
    p: u32,
    skipped: Option<u32>,
    new_m: Map<u32, u32>,
)
    requires
        sieve_wf(old_m, pred),
        n == pred + 1,
        old_m.contains_key(n),
        old_m[n] == p,
        match skipped {
            Some(k) => n < k && k % p == 0 && !old_m.remove(n).contains_key(k)
                && new_m == old_m.remove(n).insert(k, p),
            None => new_m == old_m.remove(n),
        },
        forall|c: nat| n < c <= u32::MAX && c % (p as nat) == 0
            && (match skipped { Some(k) => c < k, None => true })
            ==> #[trigger] old_m.remove(n).contains_key(c as u32),
    ensures
        sieve_wf(new_m, n as nat),
        !prime(n as nat),
{
    let m1 = old_m.remove(n);
    assert(prime(p as nat) && p <= pred && n % p == 0 && p * p <= n);
    assert(!prime(n as nat)) by {
        assert(2 <= p < n);
    }
    assert forall|k: u32| #[trigger] new_m.contains_key(k) implies {
        &&& prime(new_m[k] as nat)
        &&& new_m[k] <= n
        &&& n < k
        &&& k % new_m[k] == 0
        &&& new_m[k] * new_m[k] <= k
    } by {
        match skipped {
            Some(kk) => {
                if k == kk {
                } else {
                    assert(old_m.contains_key(k) && k != n);
                }
            },
            None => {
                assert(old_m.contains_key(k) && k != n);
            },
        }
    }
    assert forall|q: nat, c: nat|
        prime(q) && q <= n && n < c <= u32::MAX && q * q <= c && c % q == 0
        implies #[trigger] sieve_covers(new_m, n as nat, q, c) by {
        assert(q != n);
        assert(sieve_covers(old_m, pred, q, c));
        if old_m.contains_key(c as u32) {
            assert(m1.contains_key(c as u32));
            assert(new_m.contains_key(c as u32));
        } else {
            let k = choose|k: u32| #[trigger] old_m.contains_key(k) && old_m[k] == q && pred < k < c;
            if k != n {
                assert(m1.contains_key(k));
                assert(new_m.contains_key(k) && new_m[k] == q && n < k < c);
            } else {
                assert(q == p);
                match skipped {
                    Some(kk) => {
                        if c < kk {
                            assert(m1.contains_key(c as u32));
                            assert(new_m.contains_key(c as u32));
                        } else if c == kk {
                            assert(new_m.contains_key(c as u32));
                        } else {
                            assert(new_m.contains_key(kk) && new_m[kk] == q && n < kk < c);
                        }
                    },
                    None => {
                        assert(m1.contains_key(c as u32));
                    },
                }
            }
        }
    }
}

/// Prime Generator
///
/// Returns a generator that yields the prime numbers in ascending order up to
/// [`u32::MAX`].
pub fn primes() -> (r: Primes)
    ensures
        r.wf(),
        r.last() == 1,
{
    broadcast use vstd::std_specs::hash::group_hash_axioms;
    let mut map: HashMap<u32, u32> = HashMap::new();
    map.insert(4, 2);
    let r = Primes { map, pred: 2, first: true };
    proof {
        assert(r.map@ =~= map![4u32 => 2u32]);
        assert(prime(2nat)) by {
            assert(forall|d: nat| 2 <= d < 2 ==> #[trigger] (2nat % d) != 0);
        }
        assert forall|k: u32| #[trigger] r.map@.contains_key(k) implies {
            &&& prime(r.map@[k] as nat)
            &&& r.map@[k] <= 2
            &&& 2 < k
            &&& k % r.map@[k] == 0
            &&& r.map@[k] * r.map@[k] <= k
        } by {
            assert(k == 4);
        }
        assert forall|p: nat, c: nat|
            prime(p) && p <= 2 && 2 < c <= u32::MAX && p * p <= c && c % p == 0
            implies #[trigger] sieve_covers(r.map@, 2, p, c) by {
            assert(p == 2);
            if c != 4 {
                assert(r.map@.contains_key(4u32) && r.map@[4u32] == 2 && 2 < 4u32 < c);
            }
        }
    }
    r
}

impl Primes {
    /// The sieve's view of how far it has come: every number up to it has
    /// been examined.
    pub closed spec fn examined(&self) -> nat {
        self.pred as nat
    }

    /// Examines the number after the last one examined and says whether it
    /// is prime, or returns `None` once [`u32::MAX`] has been examined.
    pub fn step(&mut self) -> (r: Option<(u32, bool)>)
        requires
            old(self).wf(),
        ensures
            final(self).wf(),
            final(self).last() == final(self).examined(),
            match r {
                Some((n, is_prime)) => {
                    &&& n == old(self).examined() + 1
                    &&& is_prime == prime(n as nat)
                    &&& final(self).examined() == n
                },
                None => old(self).examined() == u32::MAX && final(self).examined() == u32::MAX,
            },
    {
        broadcast use vstd::std_specs::hash::group_hash_axioms;
        self.first = false;
        if self.pred == u32::MAX {
            return None;
        }
        let n = self.pred + 1;
        let ghost old_map = self.map@;
        let ghost pred = self.pred as nat;
        let is_prime = match self.map.remove(&n) {
            None => {
                proof { lemma_unmarked_is_prime(old_map, pred, n); }
                match n.checked_mul(n) {
                    Some(square) => {
                        proof {
                            if old_map.contains_key(square) {
                                lemma_prime_square_factor(old_map[square] as nat, n as nat);
                            }
                        }
                        self.map.insert(square, n);
                    },
                    None => {},
                }
                proof {
                    assert(old_map.remove(n) =~= old_map);
                    lemma_after_prime(old_map, pred, n, self.map@);
                }
                true
            },
            Some(p) => {
                proof {
                    assert(p >= 2 && n % p == 0);
                    if n + p <= u32::MAX {
                        lemma_add_multiple(p as nat, n as nat);
                    }
                    assert forall|c: nat| n < c <= u32::MAX && #[trigger] (c % (p as nat)) == 0 implies n + p <= c by {
                        lemma_next_multiple(p as nat, n as nat, c);
                    }
                }
                let mut skipped = n.checked_add(p);
                loop
                    invariant
                        p >= 2,
                        old_map.contains_key(n) && old_map[n] == p,
                        self.map@ == old_map.remove(n),
                        match skipped {
                            Some(k) => n < k && k % p == 0,
                            None => true,
                        },
                        forall|c: nat| n < c <= u32::MAX && c % (p as nat) == 0
                            && (match skipped { Some(k) => c < k, None => true })
                            ==> #[trigger] self.map@.contains_key(c as u32),
                    ensures
                        skipped matches Some(k) ==> !self.map@.contains_key(k),
                    decreases (match skipped { Some(k) => u32::MAX - k + 1, None => 0 }),
                {
                    match skipped {
                        None => break,
                        Some(k) => {
                            if self.map.contains_key(&k) {
                                proof {
                                    if k + p <= u32::MAX {
                                        lemma_add_multiple(p as nat, k as nat);
                                    }
                                    assert forall|c: nat| k < c <= u32::MAX && #[trigger] (c % (p as nat)) == 0 implies k + p <= c by {
                                        lemma_next_multiple(p as nat, k as nat, c);
                                    }
                                }
                                skipped = k.checked_add(p);
                            } else {
                                break;
                            }
                        },
                    }
                }
                match skipped {
                    Some(k) => {
                        self.map.insert(k, p);
                    },
                    None => {},
                }
                proof {
                    lemma_after_composite(old_map, pred, n, p, skipped, self.map@);
                }
                false
            },
        };
        self.pred = n;
        Some((n, is_prime))
    }

    /// The next prime, or `None` once every prime up to [`u32::MAX`] has been
    /// handed out.
    pub fn next(&mut self) -> (r: Option<u32>)
        requires
            old(self).wf(),
        ensures
            final(self).wf(),
            match r {
                Some(p) => is_next_prime(old(self).last(), p as nat) && final(self).last() == p,
                None => no_prime_in(old(self).last(), u32::MAX as nat) && final(self).last() == u32::MAX,
            },
    {
        if self.first {
            self.first = false;
            proof {
                assert(prime(2));
                assert(forall|k: nat| 1 < k < 2 ==> !#[trigger] prime(k));
            }
            return Some(2);
        }
        let ghost start = self.pred as nat;
        loop
            invariant
                self.wf(),
                !self.first,
                start <= self.pred,
                start == old(self).last(),
                forall|k: nat| start < k <= self.pred ==> !#[trigger] prime(k),
            decreases u32::MAX - self.pred,
        {
            match self.step() {
                None => {
                    return None;
                },
                Some((n, is_prime)) => {
                    if is_prime {
                        return Some(n);
                    }
                },
            }
        }
    }
}

/// Every number the sieve hands out passes the Miller-Rabin test of
/// [`is_prime`].
pub proof fn lemma_sieve_primes_pass_is_prime(q: nat, p: nat)
    requires
        is_next_prime(q, p),
    ensures
        miller_rabin_u32(p),
{
    crate::utils::lemma_miller_rabin_accepts_primes(p);
}

/// One step of the Collatz map.
pub open spec fn collatz_step(x: nat) -> nat {
    if x % 2 == 0 {
        x / 2
    } else {
        3 * x + 1
    }
}

/// The Collatz map halves an even number and takes an odd number `x` to
/// `3 * x + 1`.
pub proof fn lemma_collatz_step_is_collatz_map(x: nat)
    ensures
        x % 2 == 0 ==> collatz_step(x) == x / 2,
        x % 2 == 1 ==> collatz_step(x) == 3 * x + 1,
{
}

/// The step after `x` is taken only while `1 < x`; it must fit in a `u32`.
pub open spec fn collatz_step_fits(x: nat) -> bool {
    x <= 1 || collatz_step(x) <= u32::MAX
}

/// The generator made by [`collatz`]: it holds the value it hands out next.
pub struct Collatz {
    upcoming: Option<u32>,
}

impl Collatz {
    /// The value handed out by the next call, if any.
    pub closed spec fn pending(&self) -> Option<u32> {
        self.upcoming
    }

    /// Whether the next call can compute the value after the one it hands
    /// out without overflowing a `u32`.
    pub fn next_fits(&self) -> (r: bool)
        ensures
            r == (self.pending() matches Some(x) ==> collatz_step_fits(x as nat)),
    {
        match self.upcoming {
            None => true,
            Some(x) => x <= 1 || x % 2 == 0 || x <= (u32::MAX - 1) / 3,
        }
    }

    /// The next value of the orbit, or `None` once 1 (or 0) has been handed
    /// out.
    pub fn next(&mut self) -> (r: Option<u32>)
        requires
            old(self).pending() matches Some(x) ==> collatz_step_fits(x as nat),
        ensures
            r == old(self).pending(),
            final(self).pending() == match r {
                None => None,
                Some(x) => if 1 < x { Some(collatz_step(x as nat) as u32) } else { None },
            },
            match r {
                Some(x) => 1 < x ==> final(self).pending() == Some(
                    if x % 2 == 0 { x / 2 } else { (3 * x + 1) as u32 },
                ),
                None => true,
            },
    {
        match self.upcoming {
            None => None,
            Some(prev) => {
                self.upcoming = if 1 < prev {
                    if prev % 2 == 0 {
                        Some(prev / 2)
                    } else {
                        Some(3 * prev + 1)
                    }
                } else {
                    None
                };
                Some(prev)
            },
        }
    }
}

/// What the generator made by [`collatz`]`(n)` holds after `i` calls of
/// `next`, by the contract of [`Collatz::next`].
pub open spec fn collatz_pending_after(n: nat, i: nat) -> Option<nat>
    decreases i,
{
    if i == 0 {
        Some(n)
    } else {
        match collatz_pending_after(n, (i - 1) as nat) {
            Some(x) => if 1 < x { Some(collatz_step(x)) } else { None },
            None => None,
        }
    }
}

/// Collatz orbit
///
/// Returns a generator that yields the Collatz orbit starting from `n`.
///
/// The generator terminates once it reaches 1.
pub fn collatz(n: u32) -> (r: Collatz)
    ensures
        r.pending() == Some(n),
{
    Collatz { upcoming: Some(n) }
}

/// The Lucas-Lehmer sequence modulo `m`, as [`is_mersenne_exp`] walks it:
/// it starts at 4, each term is the previous one squared minus 2 (modulo
/// `m`), and it stops after a 0.
pub open spec fn lucas_lehmer_term(m: int, i: nat) -> Option<int>
    decreases i,
{
    if i == 0 {
        Some(4)
    } else {
        match lucas_lehmer_term(m, (i - 1) as nat) {
            Some(x) => if x != 0 { Some((x * x - 2) % m) } else { None },
            None => None,
        }
    }
}

/// Shifting 1 left by `k` gives `2^k`.
pub proof fn lemma_one_shl_is_pow2(k: u8)
    requires
        k <= 64,
    ensures
        (1u128 << k) == pow2(k as nat),
    decreases k,
{
    if k == 0 {
        assert((1u128 << 0u8) == 1) by (bit_vector);
        lemma2_to64();
    } else {
        let j = (k - 1) as u8;
        lemma_one_shl_is_pow2(j);
        assert((1u128 << k) == 2 * (1u128 << j)) by (bit_vector)
            requires j < 64, k == j + 1;
        vstd::arithmetic::power2::lemma_pow2_unfold(k as nat);
    }
}

/// Once the Lucas-Lehmer walk has stopped it stays stopped.
proof fn lemma_lucas_lehmer_stops(m: int, i: nat, j: nat)
    requires
        i <= j,
        lucas_lehmer_term(m, i) is None,
    ensures
        lucas_lehmer_term(m, j) is None,
    decreases j - i,
{
    if i < j {
        lemma_lucas_lehmer_stops(m, i, (j - 1) as nat);
    }
}

/// The `p`-th Mersenne number, `2^p - 1`.
pub open spec fn mersenne(p: nat) -> int {
    pow2(p) - 1
}

/// For `3 <= p <= 64`, shifting 1 left by `p` gives `2^p`, and the Mersenne
/// number `2^p - 1` lies between 7 and `u64::MAX`.
pub proof fn lemma_mersenne_bounds(p: u8)
    requires
        3 <= p <= 64,
    ensures
        (1u128 << p) == pow2(p as nat),
        7 <= mersenne(p as nat) <= 0xffff_ffff_ffff_ffff,
{
    lemma_one_shl_is_pow2(p);
    if p < 64 {
        lemma_pow2_strictly_increases(p as nat, 64);
    }
    lemma2_to64();
    vstd::arithmetic::power2::lemma2_to64_rest();
    if p > 3 {
        lemma_pow2_strictly_increases(3, p as nat);
    }
}

/// One step of the Lucas-Lehmer sequence modulo `m_p`: `prev^2 - 2`, taken
/// modulo `m_p` (adding `m_p` first keeps the difference from going below 0
/// without changing its remainder).
pub(crate) fn lucas_lehmer_step(prev: u128, m_p: u128) -> (r: u128)
    requires
        7 <= m_p <= 0xffff_ffff_ffff_ffff,
        prev <= 4 || prev < m_p,
    ensures
        r == (prev * prev - 2) % (m_p as int),
        r < m_p,
{
    assert(prev * prev + m_p <= 0xffff_ffff_ffff_ffff_ffff_ffff_ffff_ffff) by (nonlinear_arith)
        requires prev <= 4 || prev < m_p, m_p <= 0xffff_ffff_ffff_ffff;
    proof {
        vstd::arithmetic::div_mod::lemma_mod_add_multiples_vanish(prev * prev - 2, m_p as int);
    }
    (prev * prev + m_p - 2) % m_p
}

/// What [`is_mersenne_exp`] returns.
pub open spec fn mersenne_exp_spec(p: nat) -> bool {
    if p < 3 {
        p == 2
    } else if !prime(p) {
        false
    } else {
        lucas_lehmer_term(mersenne(p), (p - 2) as nat) == Some(0int)
    }
}

/// Lucas-Lehmer primality test
///
/// Returns whether the `p`-th Mersenne number is prime, where `p` is a prime
/// number: for a prime `p >= 3` that is the case when the Lucas-Lehmer
/// sequence modulo `2^p - 1` reaches 0 at its `(p - 2)`-th term.
///
/// See [A000043](https://oeis.org/A000043)
pub fn is_mersenne_exp(p: u8) -> (r: bool)
    requires
        p <= 64,
    ensures
        r == mersenne_exp_spec(p as nat),
{
    if p < 3 {
        return p == 2;
    }
    if !is_prime(p as u32) {
        // M_p is composite if p is composite.
        return false;
    }

    proof {
        lemma_mersenne_bounds(p);
    }
    let m_p: u128 = (1u128 << p) - 1;
    assert(m_p == mersenne(p as nat));
    let target: usize = (p as usize) - 2;
    let mut cur: Option<u128> = Some(4);
    let mut i: usize = 0;
    loop
        invariant
            3 <= p <= 64,
            m_p == mersenne(p as nat),
            7 <= mersenne(p as nat) <= 0xffff_ffff_ffff_ffff,
            prime(p as nat),
            target == p - 2,
            i <= target,
            cur matches Some(x) ==> x <= 4 || x < m_p,
            cur == (match lucas_lehmer_term(m_p as int, i as nat) {
                Some(x) => Some(x as u128),
                None => None,
            }),
            lucas_lehmer_term(m_p as int, i as nat) matches Some(x) ==> 0 <= x,
        decreases target - i,
    {
        let item = match cur {
            None => {
                proof {
                    lemma_lucas_lehmer_stops(m_p as int, i as nat, target as nat);
                }
                return false;
            },
            Some(x) => x,
        };
        cur = if item != 0 {
            Some(lucas_lehmer_step(item, m_p))
        } else {
            None
        };
        if i == target {
            return item == 0;
        }
        i = i + 1;
    }
}


/// The square root of `n`, rounded down (what `u32::isqrt` returns), found
/// by bisection.
fn isqrt(n: u32) -> (r: u32)
    ensures
        r * r <= n,
        n < (r + 1) * (r + 1),
{
    let mut lo: u64 = 0;
    let mut hi: u64 = 0x1_0000;
    while hi - lo > 1
        invariant
            lo < hi <= 0x1_0000,
            lo * lo <= n,
            n < hi * hi,
        decreases hi - lo,
    {
        let mid = lo + (hi - lo) / 2;
        assert(mid * mid <= 0x1_0000_0000) by (nonlinear_arith) requires mid <= 0x1_0000;
        if mid * mid <= n as u64 {
            lo = mid;
        } else {
            hi = mid;
        }
    }
    lo as u32
}

/// `n` is a perfect square.
pub open spec fn is_square(n: nat) -> bool {
    exists|k: nat| #[trigger] (k * k) == n
}

/// A number that is `k * k` is a perfect square.
proof fn lemma_square_witness(n: nat, k: nat)
    requires
        k * k == n,
    ensures
        is_square(n),
{
}

/// One step of the continued fraction expansion of the square root of `n`
/// (with `a0` the integer part of the root), from the state `(m, d, a)` to
/// the next one, or `None` where the expansion stops.
pub open spec fn conti_frac_step(n: int, a0: int, st: (int, int, int)) -> Option<(int, int, int)> {
    let (m, d, a) = st;
    let next_m = d * a - m;
    if d == 0 {
        None
    } else {
        let next_d = (n - next_m * next_m) / d;
        if next_d == 0 {
            None
        } else {
            Some((next_m, next_d, (a0 + next_m) / next_d))
        }
    }
}

/// The states that the expansion of the root of `n` passes through.
pub open spec fn conti_frac_state_ok(n: int, a0: int, st: (int, int, int)) -> bool {
    let (m, d, a) = st;
    &&& 0 <= a0
    &&& a0 * a0 <= n < (a0 + 1) * (a0 + 1)
    &&& 1 <= d
    &&& 0 <= m <= a0
    &&& (n - m * m) % d == 0
    &&& (m == 0 || d <= a0 + m)
    &&& a == (a0 + m) / d
}

/// A step from a valid state stays within bounds, and either stops, which
/// happens only when `n` is a perfect square, or leads to a valid state.
proof fn lemma_conti_frac_step(n: int, a0: int, st: (int, int, int))
    requires
        conti_frac_state_ok(n, a0, st),
    ensures
        ({
            let (m, d, a) = st;
            let next_m = d * a - m;
            &&& d * a <= a0 + m
            &&& 0 <= next_m <= a0
            &&& next_m * next_m <= n
            &&& (n - next_m * next_m) / d == 0 ==> n == next_m * next_m
            &&& d * ((n - next_m * next_m) / d) == n - next_m * next_m
            &&& conti_frac_step(n, a0, st) matches Some(nst) ==> conti_frac_state_ok(n, a0, nst)
        }),
{
    let (m, d, a) = st;
    let next_m = d * a - m;
    vstd::arithmetic::div_mod::lemma_fundamental_div_mod(a0 + m, d);
    vstd::arithmetic::div_mod::lemma_mod_bound(a0 + m, d);
    // d * a + (a0 + m) % d == a0 + m, with the remainder in [0, d)
    assert(d * a <= a0 + m);
    assert(next_m >= a0 - d + 1);
    assert(next_m >= 0) by {
        if m != 0 {
            assert(a >= 1) by (nonlinear_arith)
                requires d * a + (a0 + m) % d == a0 + m, (a0 + m) % d < d, d <= a0 + m, d >= 1;
            if d > a0 {
                assert(d * a >= d) by (nonlinear_arith) requires a >= 1, d >= 1;
            }
        } else {
            assert(d * a >= 0) by (nonlinear_arith) requires d >= 1, a == (a0 + m) / d, a0 + m >= 0;
        }
    }
    assert(next_m * next_m <= a0 * a0) by (nonlinear_arith) requires 0 <= next_m <= a0;
    // n - next_m^2 = (n - m^2) - d * (d * a^2 - 2 * a * m)
    let q = (n - m * m) / d;
    vstd::arithmetic::div_mod::lemma_fundamental_div_mod(n - m * m, d);
    let w = n - next_m * next_m;
    let k = q - (d * a * a - 2 * a * m);
    assert(w == d * k) by (nonlinear_arith)
        requires
            n - m * m == d * q,
            next_m == d * a - m,
            w == n - next_m * next_m,
            k == q - (d * a * a - 2 * a * m),
    ;
    vstd::arithmetic::div_mod::lemma_div_multiples_vanish(k, d);
    assert(w / d == k);
    assert(d * (w / d) == w);
    if k == 0 {
        assert(w == 0) by (nonlinear_arith) requires w == d * k, k == 0;
    } else {
        assert(k >= 1) by (nonlinear_arith) requires w == d * k, w >= 0, d >= 1, k != 0;
        // the new remainder condition: w is a multiple of k
        assert(w % k == 0) by {
            vstd::arithmetic::div_mod::lemma_mod_multiples_basic(d, k);
            vstd::arithmetic::mul::lemma_mul_is_commutative(d, k);
        }
        // the new bound: k <= a0 + next_m, else n >= (a0 + 1)^2
        assert(k <= a0 + next_m) by (nonlinear_arith)
            requires
                w == d * k,
                w == n - next_m * next_m,
                d >= a0 + 1 - next_m,
                0 <= next_m <= a0,
                n < (a0 + 1) * (a0 + 1),
        ;
    }
}

/// The expansion is that of the square root of `n`. In a state `(m, d, a)`
/// the complete quotient is `x = (sqrt(n) + m) / d`, and its partial
/// quotient `a` is the integer part of `x`: `a * d - m <= sqrt(n) <
/// (a + 1) * d - m`, stated here over squares. The next state `(m', d', a')`,
/// with complete quotient `x' = (sqrt(n) + m') / d'`, satisfies
/// `x = a + 1 / x'`, which comes to `m' = a * d - m` and
/// `d * d' = n - m' * m'`.
pub proof fn lemma_conti_frac_is_expansion(n: int, a0: int, st: (int, int, int))
    requires
        conti_frac_state_ok(n, a0, st),
    ensures
        ({
            let (m, d, a) = st;
            &&& 0 <= d * a - m
            &&& (d * a - m) * (d * a - m) <= n
            &&& n < (d * (a + 1) - m) * (d * (a + 1) - m)
            &&& conti_frac_step(n, a0, st) matches Some(nst) ==> {
                &&& nst.0 == d * a - m
                &&& d * nst.1 == n - nst.0 * nst.0
            }
        }),
{
    let (m, d, a) = st;
    lemma_conti_frac_step(n, a0, st);
    vstd::arithmetic::div_mod::lemma_fundamental_div_mod(a0 + m, d);
    vstd::arithmetic::div_mod::lemma_mod_bound(a0 + m, d);
    assert(d * (a + 1) == d * a + d) by (nonlinear_arith);
    let top = d * (a + 1) - m;
    assert(top >= a0 + 1);
    assert(n < top * top) by (nonlinear_arith)
        requires top >= a0 + 1, a0 >= 0, n < (a0 + 1) * (a0 + 1);
}

/// The generator made by [`conti_frac_sqrt`]: it holds the state whose
/// partial quotient it hands out next.
pub struct ContiFracSqrt {
    n: u32,
    a0: u32,
    upcoming: Option<((u32, u32), u32)>,
}

impl ContiFracSqrt {
    /// The number whose square root is expanded.
    pub closed spec fn radicand(&self) -> nat {
        self.n as nat
    }

    /// The integer part of the root.
    pub closed spec fn root_floor(&self) -> nat {
        self.a0 as nat
    }

    /// The state `(m, d, a)` whose partial quotient `a` the next call hands
    /// out, if any.
    pub closed spec fn pending(&self) -> Option<(int, int, int)> {
        match self.upcoming {
            None => None,
            Some(st) => Some(conti_frac_triple(st)),
        }
    }

    /// The generator's invariant.
    pub closed spec fn wf(&self) -> bool {
        &&& self.a0 * self.a0 <= self.n < (self.a0 + 1) * (self.a0 + 1)
        &&& self.pending() matches Some(st) ==> conti_frac_state_ok(self.n as int, self.a0 as int, st)
    }

    /// The next partial quotient, or `None` once the expansion has stopped.
    pub fn next(&mut self) -> (r: Option<u32>)
        requires
            old(self).wf(),
        ensures
            final(self).wf(),
            final(self).radicand() == old(self).radicand(),
            final(self).root_floor() == old(self).root_floor(),
            match old(self).pending() {
                None => r is None && final(self).pending() is None,
                Some(st) => r == Some(st.2 as u32) && final(self).pending()
                    == conti_frac_step(old(self).radicand() as int, old(self).root_floor() as int, st),
            },
            old(self).pending() is Some && !is_square(old(self).radicand())
                ==> final(self).pending() is Some,
    {
        match self.upcoming {
            None => None,
            Some(((prev_m, prev_d), prev_a)) => {
                self.upcoming = conti_frac_next(self.n, self.a0, ((prev_m, prev_d), prev_a));
                Some(prev_a)
            },
        }
    }
}

/// The state triple `(m, d, a)` of a state of the expansion.
pub open spec fn conti_frac_triple(st: ((u32, u32), u32)) -> (int, int, int) {
    (st.0.0 as int, st.0.1 as int, st.1 as int)
}

/// Whether `st` is a state that the expansion of the root of `n` can pass
/// through, with `a0` the integer part of the root.
pub fn conti_frac_state_valid(n: u32, a0: u32, st: ((u32, u32), u32)) -> (r: bool)
    ensures
        r == conti_frac_state_ok(n as int, a0 as int, conti_frac_triple(st)),
{
    let ((m, d), a) = st;
    let a0w = a0 as u128;
    assert(a0w * a0w <= 0xffff_ffff_ffff_ffff_ffff) by (nonlinear_arith) requires a0w <= 0xffff_ffff;
    assert((a0w + 1) * (a0w + 1) <= 0xffff_ffff_ffff_ffff_ffff) by (nonlinear_arith) requires a0w <= 0xffff_ffff;
    let a0_sq = a0w * a0w;
    let next_sq = (a0w + 1) * (a0w + 1);
    if !(a0_sq <= n as u128 && (n as u128) < next_sq) {
        return false;
    }
    proof {
        assert(a0 <= 0xffff) by (nonlinear_arith)
            requires a0 * a0 <= n, n <= 0xffff_ffff;
    }
    if !(1 <= d && m <= a0) {
        return false;
    }
    assert(m * m <= a0 * a0) by (nonlinear_arith) requires m <= a0;
    (n - m * m) % d == 0 && (m == 0 || d <= a0 + m) && a == (a0 + m) / d
}

/// The state after `st` in the expansion of the root of `n` (with `a0` the
/// integer part of the root), or `None` where the expansion stops, which
/// happens only for a perfect square.
pub fn conti_frac_next(n: u32, a0: u32, st: ((u32, u32), u32)) -> (r: Option<((u32, u32), u32)>)
    requires
        conti_frac_state_ok(n as int, a0 as int, conti_frac_triple(st)),
    ensures
        match r {
            None => conti_frac_step(n as int, a0 as int, conti_frac_triple(st)) is None,
            Some(nst) => conti_frac_step(n as int, a0 as int, conti_frac_triple(st)) == Some(conti_frac_triple(nst)),
        },
        r matches Some(nst) ==> conti_frac_state_ok(n as int, a0 as int, conti_frac_triple(nst)),
        !is_square(n as nat) ==> r is Some,
{
    let ((prev_m, prev_d), prev_a) = st;
    proof {
        lemma_conti_frac_step(n as int, a0 as int, conti_frac_triple(st));
        assert(a0 <= 0xffff) by (nonlinear_arith)
            requires a0 * a0 <= n, n <= 0xffff_ffff;
    }
    let next_m = prev_d * prev_a - prev_m;
    let nm = n - next_m * next_m;
    let r = match nm.checked_div(prev_d) {
        None => None,
        Some(next_d) => match (a0 + next_m).checked_div(next_d) {
            None => None,
            Some(next_a) => Some(((next_m, next_d), next_a)),
        },
    };
    proof {
        if !is_square(n as nat) {
            if (n - next_m * next_m) / (prev_d as int) == 0 {
                lemma_square_witness(n as nat, next_m as nat);
            }
        }
    }
    r
}

/// Successive convergents of the continued fraction of square root
///
/// Returns a generator that yields the partial quotients (coefficients) of
/// the continued fraction expansion of square root of `n`.
///
/// If `n` is a (perfect) square number, it yields `n.isqrt()` and terminates.
/// Otherwise, it goes on forever.
pub fn conti_frac_sqrt(n: u32) -> (r: ContiFracSqrt)
    ensures
        r.wf(),
        r.radicand() == n,
        r.root_floor() * r.root_floor() <= n < (r.root_floor() + 1) * (r.root_floor() + 1),
        r.pending() == Some((0int, 1int, r.root_floor() as int)),
{
    let a0 = isqrt(n);
    proof {
        vstd::arithmetic::div_mod::lemma_small_mod(0, 1);
        assert((n - 0 * 0) % 1 == 0);
    }
    ContiFracSqrt { n, a0, upcoming: Some(((0, 1), a0)) }
}

/// For a perfect square the expansion stops after its first partial
/// quotient, the root itself.
pub proof fn lemma_square_root_expansion_stops(n: nat, a0: nat)
    requires
        a0 * a0 <= n < (a0 + 1) * (a0 + 1),
        is_square(n),
    ensures
        conti_frac_step(n as int, a0 as int, (0int, 1int, a0 as int)) is None,
{
    let k = choose|k: nat| #[trigger] (k * k) == n;
    if k < a0 {
        assert(k * k < a0 * a0) by (nonlinear_arith) requires k < a0;
    } else if k > a0 {
        assert(k * k >= (a0 + 1) * (a0 + 1)) by (nonlinear_arith) requires k >= a0 + 1;
    }
    assert(k == a0);
}

/// The state of the expansion of the root of `n` after `i` steps from
/// `(0, 1, a0)`, with `a0` the integer part of the root: the state pending
/// in [`conti_frac_sqrt`]`(n)` after `i` calls of [`ContiFracSqrt::next`],
/// or `None` once the expansion has stopped.
pub open spec fn conti_frac_state_at(n: int, a0: int, i: nat) -> Option<(int, int, int)>
    decreases i,
{
    if i == 0 {
        Some((0, 1, a0))
    } else {
        match conti_frac_state_at(n, a0, (i - 1) as nat) {
            Some(st) => conti_frac_step(n, a0, st),
            None => None,
        }
    }
}

/// From index `t` on, the states of the expansion of the root of `n` come
/// back after `k` steps.
pub open spec fn conti_frac_periodic_from(n: int, a0: int, t: nat, k: nat) -> bool {
    &&& k >= 1
    &&& forall|i: nat| t <= i ==> #[trigger] conti_frac_state_at(n, a0, i + k) == conti_frac_state_at(n, a0, i)
}

/// For `n` not a perfect square every state of the expansion is a valid one,
/// so the expansion never stops.
proof fn lemma_conti_frac_goes_on(n: nat, a0: nat, i: nat)
    requires
        a0 * a0 <= n < (a0 + 1) * (a0 + 1),
        !is_square(n),
    ensures
        conti_frac_state_at(n as int, a0 as int, i) matches Some(st)
            && conti_frac_state_ok(n as int, a0 as int, st),
    decreases i,
{
    if i == 0 {
        assert((n - 0int * 0int) % 1 == 0);
        assert((a0 + 0int) / 1 == a0);
    } else {
        lemma_conti_frac_goes_on(n, a0, (i - 1) as nat);
        let st = conti_frac_state_at(n as int, a0 as int, (i - 1) as nat)->0;
        lemma_conti_frac_step(n as int, a0 as int, st);
        let next_m = st.1 * st.2 - st.0;
        if (n - next_m * next_m) / st.1 == 0 {
            lemma_square_witness(n, next_m as nat);
        }
    }
}

/// In a valid state of the expansion of the root of a non-square `n`, `m`
/// lies in `[0, a0]` and `d` in `[1, n]`.
proof fn lemma_conti_frac_state_bounded(n: nat, a0: nat, st: (int, int, int))
    requires
        conti_frac_state_ok(n as int, a0 as int, st),
        !is_square(n),
    ensures
        0 <= st.0 <= a0,
        1 <= st.1 <= n,
{
    let (m, d, a) = st;
    assert(m * m <= a0 * a0) by (nonlinear_arith) requires 0 <= m <= a0;
    if m * m == n {
        lemma_square_witness(n, m as nat);
    }
    let x = n - m * m;
    vstd::arithmetic::div_mod::lemma_fundamental_div_mod(x, d);
    assert(d <= x) by (nonlinear_arith)
        requires x == d * (x / d) + x % d, x % d == 0, x >= 1, d >= 1;
}

/// Two equal states of the expansion stay equal step after step.
proof fn lemma_conti_frac_repeats(n: int, a0: int, i: nat, k: nat, t: nat)
    requires
        conti_frac_state_at(n, a0, i + k) == conti_frac_state_at(n, a0, i),
        i <= t,
    ensures
        conti_frac_state_at(n, a0, t + k) == conti_frac_state_at(n, a0, t),
    decreases t - i,
{
    if i < t {
        lemma_conti_frac_repeats(n, a0, i, k, (t - 1) as nat);
        assert((t + k - 1) as nat == (t - 1) as nat + k);
    }
}

/// For `n` not a perfect square the continued fraction expansion of its
/// square root goes on forever and is eventually periodic: from some index
/// on, its states, and with them its partial quotients, repeat with a fixed
/// period. (There are at most `(a0 + 1) * (n + 1)` states, so one comes back
/// within that many steps.)
pub proof fn lemma_conti_frac_eventually_periodic(n: nat, a0: nat)
    requires
        a0 * a0 <= n < (a0 + 1) * (a0 + 1),
        !is_square(n),
    ensures
        forall|i: nat| #[trigger] conti_frac_state_at(n as int, a0 as int, i) is Some,
        exists|t: nat, k: nat| #[trigger] conti_frac_periodic_from(n as int, a0 as int, t, k),
{
    assert forall|i: nat| #[trigger] conti_frac_state_at(n as int, a0 as int, i) is Some by {
        lemma_conti_frac_goes_on(n, a0, i);
    }
    let bound = (a0 + 1) * (n + 1);
    let c = |i: nat| {
        let st = conti_frac_state_at(n as int, a0 as int, i)->0;
        st.0 * (n + 1) + st.1
    };
    assert forall|i: nat| i <= bound implies 0 <= #[trigger] c(i) < bound by {
        lemma_conti_frac_goes_on(n, a0, i);
        let st = conti_frac_state_at(n as int, a0 as int, i)->0;
        lemma_conti_frac_state_bounded(n, a0, st);
        assert(0 <= st.0 * (n + 1) + st.1 < (a0 + 1) * (n + 1)) by (nonlinear_arith)
            requires 0 <= st.0 <= a0, 1 <= st.1 <= n;
    }
    let (i, j) = lemma_pigeonhole(c, bound);
    lemma_conti_frac_goes_on(n, a0, i);
    lemma_conti_frac_goes_on(n, a0, j);
    let si = conti_frac_state_at(n as int, a0 as int, i)->0;
    let sj = conti_frac_state_at(n as int, a0 as int, j)->0;
    lemma_conti_frac_state_bounded(n, a0, si);
    lemma_conti_frac_state_bounded(n, a0, sj);
    assert(si.0 == sj.0) by (nonlinear_arith)
        requires
            si.0 * (n + 1) + si.1 == sj.0 * (n + 1) + sj.1,
            1 <= si.1 <= n,
            1 <= sj.1 <= n,
            0 <= si.0,
            0 <= sj.0,
    ;
    assert(si == sj);
    let k = (j - i) as nat;
    assert(i + k == j);
    assert forall|t: nat| i <= t implies #[trigger] conti_frac_state_at(n as int, a0 as int, t + k)
        == conti_frac_state_at(n as int, a0 as int, t) by {
        lemma_conti_frac_repeats(n as int, a0 as int, i, k, t);
    }
    assert(conti_frac_periodic_from(n as int, a0 as int, i, k));
}


/// A state of the expansion past the first: besides being valid, it has
/// `m >= 1` and `d > sqrt(n) - m`, that is `m + d >= a0 + 1`.
pub open spec fn conti_frac_reduced(n: int, a0: int, st: (int, int, int)) -> bool {
    &&& conti_frac_state_ok(n, a0, st)
    &&& 1 <= st.0
    &&& a0 + 1 <= st.0 + st.1
}

/// For a non-square `n` a step from a reduced state leads to a reduced state.
proof fn lemma_conti_frac_reduced_step(n: nat, a0: nat, st: (int, int, int))
    requires
        conti_frac_reduced(n as int, a0 as int, st),
        !is_square(n),
    ensures
        conti_frac_step(n as int, a0 as int, st) matches Some(nst)
            && conti_frac_reduced(n as int, a0 as int, nst),
{
    let (m, d, a) = st;
    lemma_conti_frac_step(n as int, a0 as int, st);
    let m2 = d * a - m;
    if (n - m2 * m2) / d == 0 {
        lemma_square_witness(n, m2 as nat);
    }
    let d2 = (n - m2 * m2) / d;
    vstd::arithmetic::div_mod::lemma_fundamental_div_mod(a0 + m, d);
    vstd::arithmetic::div_mod::lemma_mod_bound(a0 + m, d);
    assert(d * a >= d) by (nonlinear_arith)
        requires d * a + (a0 + m) % d == a0 + m, 0 <= (a0 + m) % d < d, d <= a0 + m, d >= 1;
    assert(m2 >= 1);
    if a0 * a0 == n {
        lemma_square_witness(n, a0);
    }
    assert(m2 + d2 >= a0 + 1) by (nonlinear_arith)
        requires
            d * d2 == n - m2 * m2,
            d2 >= 1,
            m2 + m >= d,
            m <= a0,
            0 <= m2 <= a0,
            a0 * a0 < n,
    ;
}

/// Every state of the expansion of the root of a non-square `n` past the
/// first is reduced.
proof fn lemma_conti_frac_reduced_at(n: nat, a0: nat, i: nat)
    requires
        a0 * a0 <= n < (a0 + 1) * (a0 + 1),
        !is_square(n),
        i >= 1,
    ensures
        conti_frac_state_at(n as int, a0 as int, i) matches Some(st)
            && conti_frac_reduced(n as int, a0 as int, st),
    decreases i,
{
    lemma_conti_frac_goes_on(n, a0, i);
    if i == 1 {
        if a0 == 0 {
            assert(n < 1) by (nonlinear_arith) requires a0 == 0, n < (a0 + 1) * (a0 + 1);
            lemma_square_witness(n, 0);
        }
        if a0 * a0 == n {
            lemma_square_witness(n, a0);
        }
        assert((n - a0 * a0) / 1 == n - a0 * a0);
    } else {
        lemma_conti_frac_reduced_at(n, a0, (i - 1) as nat);
        lemma_conti_frac_reduced_step(n, a0, conti_frac_state_at(n as int, a0 as int, (i - 1) as nat)->0);
    }
}

/// Two reduced states with the same successor are equal: past its first
/// state the expansion can be run backwards.
proof fn lemma_conti_frac_step_injective(n: nat, a0: nat, s1: (int, int, int), s2: (int, int, int))
    requires
        conti_frac_reduced(n as int, a0 as int, s1),
        conti_frac_reduced(n as int, a0 as int, s2),
        conti_frac_step(n as int, a0 as int, s1) is Some,
        conti_frac_step(n as int, a0 as int, s1) == conti_frac_step(n as int, a0 as int, s2),
    ensures
        s1 == s2,
{
    lemma_conti_frac_is_expansion(n as int, a0 as int, s1);
    lemma_conti_frac_is_expansion(n as int, a0 as int, s2);
    let nst = conti_frac_step(n as int, a0 as int, s1)->0;
    let (m1, d1, a1) = s1;
    let (m2, d2, a2) = s2;
    assert(d1 == d2) by (nonlinear_arith)
        requires d1 * nst.1 == d2 * nst.1, nst.1 >= 1;
    assert(a1 == a2) by (nonlinear_arith)
        requires
            d1 * a1 - m1 == d1 * a2 - m2,
            a0 + 1 <= m1 + d1,
            a0 + 1 <= m2 + d1,
            m1 <= a0,
            m2 <= a0,
            d1 >= 1,
    ;
}

/// For `n` not a perfect square the continued fraction expansion of its
/// square root is periodic from its second partial quotient on, and the
/// period ends with twice the first one: there is `k >= 1` such that the
/// states from index 1 on come back after `k` steps, and the state at index
/// `k` is `(a0, 1, 2 * a0)`, so that
/// `sqrt(n) = [a0; a1, ..., a(k-1), 2 * a0, a1, ...]`.
pub proof fn lemma_conti_frac_purely_periodic(n: nat, a0: nat)
    requires
        a0 * a0 <= n < (a0 + 1) * (a0 + 1),
        !is_square(n),
    ensures
        exists|k: nat| #[trigger] conti_frac_periodic_from(n as int, a0 as int, 1, k)
            && conti_frac_state_at(n as int, a0 as int, k) == Some((a0 as int, 1int, 2 * a0 as int)),
{
    lemma_conti_frac_eventually_periodic(n, a0);
    let (t, k) = choose|t: nat, k: nat| #[trigger] conti_frac_periodic_from(n as int, a0 as int, t, k);
    lemma_conti_frac_periodic_back(n, a0, t, k);
    let (a0i, ni) = (a0 as int, n as int);
    assert(conti_frac_state_at(ni, a0i, 1 + k) == conti_frac_state_at(ni, a0i, 1));
    lemma_conti_frac_reduced_at(n, a0, k);
    let sk = conti_frac_state_at(ni, a0i, k)->0;
    lemma_conti_frac_is_expansion(ni, a0i, sk);
    lemma_conti_frac_reduced_at(n, a0, 1);
    assert(((k + 1) as nat) == 1 + k);
    let s1 = conti_frac_state_at(ni, a0i, 1)->0;
    assert(s1.0 == a0 && s1.1 == n - a0 * a0) by {
        reveal_with_fuel(conti_frac_state_at, 2);
        let st0 = (0int, 1int, a0i);
        let m1 = st0.1 * st0.2 - st0.0;
        vstd::arithmetic::mul::lemma_mul_basics(a0i);
        assert(m1 == a0i);
        assert(m1 * m1 == a0i * a0i);
        assert((ni - m1 * m1) / st0.1 == ni - a0i * a0i);
        assert(conti_frac_state_at(ni, a0i, 1) == conti_frac_step(ni, a0i, st0));
    }
    assert(sk.1 == 1) by (nonlinear_arith)
        requires sk.1 * s1.1 == s1.1, s1.1 >= 1;
    assert(sk.0 == a0);
    assert((a0 + a0) / 1 == 2 * a0);
    assert(conti_frac_state_at(ni, a0i, k) == Some((a0i, 1int, 2 * a0i)));
}

/// A period that starts at `t` starts at 1 already.
proof fn lemma_conti_frac_periodic_back(n: nat, a0: nat, t: nat, k: nat)
    requires
        a0 * a0 <= n < (a0 + 1) * (a0 + 1),
        !is_square(n),
        conti_frac_periodic_from(n as int, a0 as int, t, k),
    ensures
        conti_frac_periodic_from(n as int, a0 as int, 1, k),
    decreases t,
{
    let (a0i, ni) = (a0 as int, n as int);
    if t >= 2 {
        let u = (t - 1) as nat;
        lemma_conti_frac_reduced_at(n, a0, u);
        lemma_conti_frac_reduced_at(n, a0, u + k);
        assert(conti_frac_state_at(ni, a0i, t + k) == conti_frac_state_at(ni, a0i, t));
        assert(((u + k + 1) as nat) == t + k);
        lemma_conti_frac_goes_on(n, a0, t);
        assert(conti_frac_state_at(ni, a0i, t)
            == conti_frac_step(ni, a0i, conti_frac_state_at(ni, a0i, u)->0));
        lemma_conti_frac_step_injective(n, a0,
            conti_frac_state_at(ni, a0i, u)->0, conti_frac_state_at(ni, a0i, u + k)->0);
        assert forall|i: nat| u <= i implies #[trigger] conti_frac_state_at(ni, a0i, i + k)
            == conti_frac_state_at(ni, a0i, i) by {
            if i > u {
                assert(conti_frac_state_at(ni, a0i, i + k) == conti_frac_state_at(ni, a0i, i));
            }
        }
        lemma_conti_frac_periodic_back(n, a0, u, k);
    }
}

/// The first index of the orbit past the tail that is a positive multiple of
/// the cycle length.
spec fn first_aligned(mu: nat, lambda: nat) -> nat {
    if mu == 0 {
        lambda
    } else {
        mu + ((lambda - mu % lambda) as nat) % lambda
    }
}

proof fn lemma_first_aligned(mu: nat, lambda: nat)
    requires
        lambda >= 1,
    ensures
        1 <= first_aligned(mu, lambda),
        mu <= first_aligned(mu, lambda) <= mu + lambda,
        first_aligned(mu, lambda) % lambda == 0,
{
    let nu = first_aligned(mu, lambda);
    if mu == 0 {
        vstd::arithmetic::div_mod::lemma_mod_self_0(lambda as int);
    } else {
        let t = mu % lambda;
        vstd::arithmetic::div_mod::lemma_mod_bound(mu as int, lambda as int);
        vstd::arithmetic::div_mod::lemma_fundamental_div_mod(mu as int, lambda as int);
        let q = mu / lambda;
        if t == 0 {
            vstd::arithmetic::div_mod::lemma_mod_self_0(lambda as int);
            assert(nu == mu);
        } else {
            vstd::arithmetic::div_mod::lemma_small_mod((lambda - t) as nat, lambda);
            assert(nu == lambda * q + lambda);
            assert(nu == (q + 1) * lambda) by (nonlinear_arith) requires nu == lambda * q + lambda;
            vstd::arithmetic::div_mod::lemma_mod_multiples_basic((q + 1) as int, lambda as int);
        }
    }
}

/// The value after `x` in the orbit, computed by calling `f`.
fn step<T, F>(f: &F, x: &T) -> (y: T)
    where
        F: Fn(&T) -> T,
    requires
        total(*f),
        deterministic(*f),
    ensures
        y == next_of(*f, *x),
{
    let y = f(x);
    proof {
        lemma_call_is_next(*f, *x, y);
    }
    y
}

/// R. W. Floyd's cycle detection algorithm
///
/// Returns `mu` (the length of the tail) and `lambda` (the length of the
/// cycle) of the orbit `x0, f(x0), f(f(x0)), ...`.
pub fn detect_cycle_floyd<T, F>(x0: &T, f: &F) -> (r: (usize, usize))
    where
        T: Clone + Eq,
        F: Fn(&T) -> T,
    requires
        obeys_concrete_eq::<T>(),
        total(*f),
        deterministic(*f),
        repeats_within(*f, *x0, usize::MAX as nat),
    ensures
        tail_and_cycle(*f, *x0, r.0 as nat, r.1 as nat),
{
    let ghost fv = *f;
    let ghost x = *x0;
    let ghost (mu, lam) = lemma_tail_and_cycle_exist(fv, x, usize::MAX as nat);
    let ghost nu = first_aligned(mu, lam);
    proof {
        reveal(obeys_concrete_eq);
        lemma_first_aligned(mu, lam);
        lemma_orbit_equal_iff(fv, x, mu, lam, nu, 2 * nu);
        assert((2 * nu - nu) as int == nu);
    }

    // Phase 1: the tortoise at i meets the hare at 2 * i.
    let mut t = step(f, x0);
    let h1 = step(f, x0);
    let mut h = step(f, &h1);
    let mut i: usize = 1;
    proof {
        assert(orbit(fv, x, 0) == x);
        lemma_orbit_succ(fv, x, 0);
        lemma_orbit_succ(fv, x, 1);
    }
    while t != h
        invariant
            obeys_concrete_eq::<T>(),
            total(fv),
            deterministic(fv),
            fv == *f,
            tail_and_cycle(fv, x, mu, lam),
            mu + lam <= usize::MAX,
            1 <= nu <= mu + lam,
            orbit(fv, x, nu) == orbit(fv, x, 2 * nu),
            1 <= i <= nu,
            t == orbit(fv, x, i as nat),
            h == orbit(fv, x, 2 * (i as nat)),
        decreases nu - i,
    {
        proof { reveal(obeys_concrete_eq); }
        assert(i != nu);
        t = step(f, &t);
        let h2 = step(f, &h);
        h = step(f, &h2);
        i = i + 1;
        proof {
            lemma_orbit_succ(fv, x, (i - 1) as nat);
            lemma_orbit_succ(fv, x, 2 * ((i - 1) as nat));
            lemma_orbit_succ(fv, x, 2 * ((i - 1) as nat) + 1);
            assert(2 * (i as nat) == 2 * ((i - 1) as nat) + 1 + 1);
        }
    }
    proof {
        reveal(obeys_concrete_eq);
        lemma_orbit_equal_iff(fv, x, mu, lam, i as nat, 2 * (i as nat));
        assert((2 * (i as nat) - i) as int == i);
    }
    let reunion = t;

    // Phase 2: walk the cycle from the meeting point back to it.
    let mut y = step(f, &reunion);
    let mut j: usize = 0;
    while y != reunion
        invariant
            obeys_concrete_eq::<T>(),
            total(fv),
            deterministic(fv),
            fv == *f,
            tail_and_cycle(fv, x, mu, lam),
            mu + lam <= usize::MAX,
            mu <= i,
            (i as int) % (lam as int) == 0,
            reunion == orbit(fv, x, i as nat),
            y == orbit(fv, x, (i + 1 + j) as nat),
            1 + j <= lam,
        decreases lam - j,
    {
        proof {
            reveal(obeys_concrete_eq);
            lemma_orbit_equal_iff(fv, x, mu, lam, i as nat, (i + 1 + j) as nat);
            if 1 + j == lam {
                vstd::arithmetic::div_mod::lemma_mod_self_0(lam as int);
            }
        }
        y = step(f, &y);
        j = j + 1;
    }
    proof {
        reveal(obeys_concrete_eq);
        lemma_orbit_equal_iff(fv, x, mu, lam, i as nat, (i + 1 + j) as nat);
        if 1 + j < lam {
            vstd::arithmetic::div_mod::lemma_small_mod((1 + j) as nat, lam);
        }
    }
    let lambda = 1 + j;

    // Phase 3: the first index whose value the walk from the meeting point
    // matches is the length of the tail.
    let mut k: usize = 0;
    proof {
        lemma_orbit_equal_iff(fv, x, mu, lam, 0, i as nat);
    }
    if reunion != *x0 {
        let mut a = step(f, &reunion);
        let mut b = step(f, x0);
        k = 1;
        while a != b
            invariant
                obeys_concrete_eq::<T>(),
                total(fv),
                deterministic(fv),
                fv == *f,
                tail_and_cycle(fv, x, mu, lam),
                mu + lam <= usize::MAX,
                mu <= i,
                1 <= i,
                (i as int) % (lam as int) == 0,
                a == orbit(fv, x, (i + k) as nat),
                b == orbit(fv, x, k as nat),
                1 <= k <= mu,
            decreases mu - k,
        {
            proof {
                reveal(obeys_concrete_eq);
                lemma_orbit_equal_iff(fv, x, mu, lam, k as nat, (i + k) as nat);
            }
            a = step(f, &a);
            b = step(f, &b);
            k = k + 1;
        }
        proof {
            reveal(obeys_concrete_eq);
            lemma_orbit_equal_iff(fv, x, mu, lam, k as nat, (i + k) as nat);
        }
    }
    proof {
        reveal(obeys_concrete_eq);
    }
    (k, lambda)
}


/// The first index `k` whose value the value `lambda` steps later matches:
/// the length of the tail.
fn find_tail<T, F>(x0: &T, f: &F, lambda: usize, Ghost(mu): Ghost<nat>) -> (k: usize)
    where
        T: Clone + Eq,
        F: Fn(&T) -> T,
    requires
        obeys_concrete_eq::<T>(),
        total(*f),
        deterministic(*f),
        tail_and_cycle(*f, *x0, mu, lambda as nat),
        mu + lambda <= usize::MAX,
    ensures
        k == mu,
{
    let ghost fv = *f;
    let ghost x = *x0;
    proof {
        reveal(obeys_concrete_eq);
        assert(orbit(fv, x, 0) == x);
        lemma_orbit_succ(fv, x, 0);
    }
    // a walks ahead of the start by lambda steps.
    let mut a = step(f, x0);
    let mut c: usize = 1;
    while c < lambda
        invariant
            total(fv),
            deterministic(fv),
            fv == *f,
            1 <= c <= lambda,
            a == orbit(fv, x, c as nat),
        decreases lambda - c,
    {
        a = step(f, &a);
        c = c + 1;
        proof {
            lemma_orbit_succ(fv, x, (c - 1) as nat);
        }
    }
    proof {
        lemma_orbit_equal_iff(fv, x, mu, lambda as nat, 0, lambda as nat);
        vstd::arithmetic::div_mod::lemma_mod_self_0(lambda as int);
    }
    if a == *x0 {
        return 0;
    }
    let mut b = step(f, x0);
    a = step(f, &a);
    let mut k: usize = 1;
    proof {
        lemma_orbit_succ(fv, x, lambda as nat);
    }
    while a != b
        invariant
            obeys_concrete_eq::<T>(),
            total(fv),
            deterministic(fv),
            fv == *f,
            tail_and_cycle(fv, x, mu, lambda as nat),
            mu + lambda <= usize::MAX,
            a == orbit(fv, x, (k + lambda) as nat),
            b == orbit(fv, x, k as nat),
            1 <= k <= mu,
        decreases mu - k,
    {
        proof {
            reveal(obeys_concrete_eq);
            lemma_orbit_equal_iff(fv, x, mu, lambda as nat, k as nat, (k + lambda) as nat);
            vstd::arithmetic::div_mod::lemma_mod_self_0(lambda as int);
        }
        a = step(f, &a);
        b = step(f, &b);
        k = k + 1;
        proof {
            lemma_orbit_succ(fv, x, (k - 1) as nat);
            lemma_orbit_succ(fv, x, (k - 1 + lambda) as nat);
        }
    }
    proof {
        reveal(obeys_concrete_eq);
        lemma_orbit_equal_iff(fv, x, mu, lambda as nat, k as nat, (k + lambda) as nat);
    }
    k
}

/// Wherever [`detect_cycle_brent`] can be called, so can
/// [`detect_cycle_floyd`]; both return the tail and cycle lengths, which are
/// unique (`crate::cycle::lemma_tail_and_cycle_unique`), so they return the
/// same pair.
pub proof fn lemma_brent_within_floyd<T, F: Fn(&T) -> T>(f: F, x0: T)
    requires
        repeats_within_blocks(f, x0),
    ensures
        repeats_within(f, x0, usize::MAX as nat),
{
    lemma_blocks_within_bound(f, x0, usize::MAX as nat);
}

/// Starting the search one step later, at `f(x0)`, shortens the tail by one
/// (if there is a tail) and keeps the cycle length.
pub proof fn lemma_detect_cycle_from_next<T, F: Fn(&T) -> T>(f: F, x0: T, mu: nat, lambda: nat)
    requires
        tail_and_cycle(f, x0, mu, lambda),
    ensures
        tail_and_cycle(f, next_of(f, x0), if mu > 0 { (mu - 1) as nat } else { 0 }, lambda),
        repeats_within(f, x0, usize::MAX as nat) ==> repeats_within(f, next_of(f, x0), usize::MAX as nat),
{
    crate::cycle::lemma_tail_and_cycle_shift(f, x0, mu, lambda);
    if repeats_within(f, x0, usize::MAX as nat) {
        crate::cycle::lemma_repeats_within_shift(f, x0, usize::MAX as nat);
    }
}

/// R. P. Brent's improved cycle detection algorithm
///
/// Returns `mu` (the length of the tail) and `lambda` (the length of the
/// cycle) of the orbit `x0, f(x0), f(f(x0)), ...`: the tortoise rests at
/// indices `2^e - 1` while the hare runs up to `2^e` steps ahead of it. The
/// blocks are at most `2^30` steps long, so the tail must be shorter than
/// `2^30` and the cycle at most `2^30` steps long.
pub fn detect_cycle_brent<T, F>(x0: &T, f: &F) -> (r: (usize, usize))
    where
        T: Clone + Eq,
        F: Fn(&T) -> T,
    requires
        obeys_concrete_eq::<T>(),
        total(*f),
        deterministic(*f),
        repeats_within_blocks(*f, *x0),
    ensures
        tail_and_cycle(*f, *x0, r.0 as nat, r.1 as nat),
{
    let ghost fv = *f;
    let ghost x = *x0;
    proof {
        lemma_blocks_within_bound(fv, x, 0x8000_0000);
    }
    let ghost (mu, lam) = lemma_tail_and_cycle_exist(fv, x, 0x8000_0000);
    proof {
        let (m, l) = choose|m: nat, l: nat|
            l >= 1 && m < 0x4000_0000 && l <= 0x4000_0000 && #[trigger] orbit(fv, x, m + l) == orbit(fv, x, m);
        assert(orbit(fv, x, m + l) == orbit(fv, x, m));
        lemma_tail_and_cycle_bounded(fv, x, mu, lam, m, l);
    }
    proof {
        reveal(obeys_concrete_eq);
        assert(orbit(fv, x, 0) == x);
        lemma_orbit_succ(fv, x, 0);
        lemma_orbit_succ(fv, x, 1);
        lemma_orbit_equal_iff(fv, x, mu, lam, 0, 1);
    }
    let lambda: usize;
    let first = step(f, x0);
    if *x0 == first {
        // block of size 1: the tortoise at 0 meets the hare at 1
        proof {
            if lam > 1 {
                vstd::arithmetic::div_mod::lemma_small_mod(1, lam);
            }
        }
        lambda = 1;
    } else {
        proof {
            if mu == 0 {
                assert(lam > 1) by {
                    if lam == 1 {
                        vstd::arithmetic::div_mod::lemma_mod_self_0(1);
                    }
                }
            }
        }
        let mut pw: usize = 2;
        let mut t = first;
        let mut h = step(f, &t);
        let mut j: usize = 0;
        loop
            invariant_except_break
                obeys_concrete_eq::<T>(),
                total(fv),
                deterministic(fv),
                fv == *f,
                tail_and_cycle(fv, x, mu, lam),
                mu < 0x4000_0000,
                lam <= 0x4000_0000,
                2 <= pw <= 2 * (mu + lam),
                pw <= 2 * mu + 2 || pw <= 2 * lam,
                j < pw,
                t == orbit(fv, x, (pw - 1) as nat),
                h == orbit(fv, x, (pw + j) as nat),
                forall|j2: nat| j2 < j ==> #[trigger] orbit(fv, x, (pw + j2) as nat) != t,
            ensures
                1 <= lambda,
                lambda as nat == lam,
            decreases 4 * (mu + lam) - (pw + j),
        {
            proof {
                reveal(obeys_concrete_eq);
                lemma_orbit_equal_iff(fv, x, mu, lam, (pw - 1) as nat, (pw + j) as nat);
            }
            if t == h {
                proof {
                    // the match is at the first multiple of lam
                    if j + 1 > lam {
                        let j2 = (lam - 1) as nat;
                        lemma_orbit_equal_iff(fv, x, mu, lam, (pw - 1) as nat, (pw + j2) as nat);
                        vstd::arithmetic::div_mod::lemma_mod_self_0(lam as int);
                        assert(orbit(fv, x, (pw + j2) as nat) == t);
                    }
                    if j + 1 < lam {
                        vstd::arithmetic::div_mod::lemma_small_mod((j + 1) as nat, lam);
                    }
                }
                lambda = j + 1;
                break;
            }
            proof {
                // a block that ends without a match was too early or too short
                if j + 1 == pw && pw - 1 >= mu && pw >= lam {
                    let j2 = (lam - 1) as nat;
                    lemma_orbit_equal_iff(fv, x, mu, lam, (pw - 1) as nat, (pw + j2) as nat);
                    vstd::arithmetic::div_mod::lemma_mod_self_0(lam as int);
                    if j2 < j {
                        assert(orbit(fv, x, (pw + j2) as nat) == t);
                    }
                }
            }
            if j + 1 == pw {
                t = h;
                h = step(f, &t);
                pw = pw * 2;
                j = 0;
                proof {
                    lemma_orbit_succ(fv, x, (pw - 1) as nat);
                }
            } else {
                h = step(f, &h);
                j = j + 1;
                proof {
                    lemma_orbit_succ(fv, x, (pw + j - 1) as nat);
                }
            }
        }
    }
    let mu_r = find_tail(x0, f, lambda, Ghost(mu));
    (mu_r, lambda)
}

} // verus!
