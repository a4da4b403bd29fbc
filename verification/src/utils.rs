//! Primality testing and modular exponentiation, with the unfolding
//! generators they are built on.
use vstd::prelude::*;
use vstd::arithmetic::power::{pow, lemma_pow_adds, lemma_pow_multiplies, lemma_square_is_pow2, lemma_pow_mod_noop};
use vstd::arithmetic::div_mod::{lemma_mul_mod_noop_left, lemma_mul_mod_noop_right, lemma_small_mod};
use vstd::arithmetic::mul::{lemma_mul_is_associative, lemma_mul_is_commutative, lemma_mul_basics};
use vstd::arithmetic::power2::{pow2, lemma_pow2_pos, lemma_pow2_unfold, lemma2_to64};
use vstd::arithmetic::div_mod::{lemma_div_by_multiple, lemma_fundamental_div_mod, lemma_mod_bound};
use vstd::bits::{lemma_u32_shr_is_div, lemma_u32_shl_is_mul};
use crate::arith::{prime, lemma_least_prime_factor};
use crate::fermat::{lemma_fermat_little, lemma_square_root_of_one};

verus! {

/// Errors of the primality and exponentiation functions.
#[derive(Debug, Clone, Copy, PartialEq, Eq, Structural)]
pub enum NumError {
    /// `n` must be odd and greater than 2.
    InvalidN,
    /// `a` must satisfy `2 <= a < n`.
    InvalidA,
    /// The modulus must be non-zero.
    ZeroModulo,
}

/// The generator made by [`unfold`]: it holds the state and the step
/// function until the step function declines to go on.
pub struct Unfold<B, F> {
    pub state: Option<(B, F)>,
}

/// The 'dual' of a fold: yields the first elements of the pairs returned by
/// `f`, updating the internal state with the second elements while `f`
/// returns `Some`.
pub fn unfold<A, B, F>(init: B, f: F) -> (r: Unfold<B, F>)
    where
        F: FnMut(B) -> Option<(A, B)>,
    ensures
        r.state == Some((init, f)),
{
    Unfold { state: Some((init, f)) }
}

impl<B, F> Unfold<B, F> {
    /// What one call of [`Unfold::next`] does: from `self` to `after`,
    /// returning `r`.
    pub open spec fn next_step<A>(self, after: Self, r: Option<A>) -> bool
        where
            F: FnMut(B) -> Option<(A, B)>,
    {
        match self.state {
            None => r is None && after.state is None,
            Some((b, f)) => exists|out: Option<(A, B)>| {
                &&& call_ensures(f, (b,), out)
                &&& match out {
                    None => r is None && after.state is None,
                    Some((a, b2)) => r == Some(a) && (after.state matches Some((b3, f3)) && b3 == b2 && f3 == f),
                }
            },
        }
    }

    /// The next value of the unfolding, or `None` once the step function has
    /// declined to go on.
    pub fn next<A>(&mut self) -> (r: Option<A>)
        where
            F: FnMut(B) -> Option<(A, B)>,
        requires
            old(self).state matches Some((b, f)) ==> call_requires(f, (b,)),
        ensures
            old(self).next_step(*final(self), r),
    {
        match self.state.take() {
            None => None,
            Some((curr, mut f)) => {
                match f(curr) {
                    None => None,
                    Some((res, next)) => {
                        self.state = Some((next, f));
                        Some(res)
                    },
                }
            },
        }
    }
}


/// The generator made by [`unfold_ref`]: it holds the pair that the step
/// function returned last, and the step function itself.
pub struct UnfoldRef<'a, A, B, F> {
    pub pending: Option<(A, B)>,
    pub f: &'a F,
}

/// Pure [`unfold`]: the step function takes the state by reference, and is
/// applied to the initial state at once and to each new state as soon as its
/// value is handed out.
pub fn unfold_ref<'a, A, B, F>(init: &B, f: &'a F) -> (r: UnfoldRef<'a, A, B, F>)
    where
        F: Fn(&B) -> Option<(A, B)>,
    requires
        call_requires(*f, (init,)),
    ensures
        call_ensures(*f, (init,), r.pending),
        r.f == f,
{
    UnfoldRef { pending: f(init), f }
}

impl<'a, A, B, F> UnfoldRef<'a, A, B, F> where F: Fn(&B) -> Option<(A, B)> {
    /// What one call of [`UnfoldRef::next`] does: from `self` to `after`,
    /// returning `r`.
    pub open spec fn next_step(self, after: Self, r: Option<A>) -> bool {
        &&& after.f == self.f
        &&& match self.pending {
            None => r is None && after.pending is None,
            Some((a, b)) => r == Some(a) && call_ensures(*self.f, (&b,), after.pending),
        }
    }

    /// The next value of the unfolding; the step function is applied to the
    /// state that comes with it before it is returned.
    pub fn next(&mut self) -> (r: Option<A>)
        requires
            old(self).pending matches Some((_, b)) ==> call_requires(*old(self).f, (&b,)),
        ensures
            old(self).next_step(*final(self), r),
    {
        match self.pending.take() {
            None => None,
            Some((a, b)) => {
                self.pending = (self.f)(&b);
                Some(a)
            },
        }
    }
}

/// `f` returns one value for each argument.
pub open spec fn step_deterministic<A, B, F: Fn(&B) -> Option<(A, B)>>(f: F) -> bool {
    forall|b: B, o1: Option<(A, B)>, o2: Option<(A, B)>|
        #[trigger] call_ensures(f, (&b,), o1) && #[trigger] call_ensures(f, (&b,), o2) ==> o1 == o2
}

/// An [`UnfoldRef`] and an [`Unfold`] are at the same point of one
/// unfolding: the `Unfold` has stopped exactly when the `UnfoldRef` has, and
/// otherwise the pair pending in the `UnfoldRef` is what the step function
/// returns for the state of the `Unfold`, whose own step function `g`
/// returns for a state `b` only what `f` returns for `&b`.
pub open spec fn unfoldings_agree<'a, A, B, F, G>(r: UnfoldRef<'a, A, B, F>, u: Unfold<B, G>) -> bool
    where
        F: Fn(&B) -> Option<(A, B)>,
        G: FnMut(B) -> Option<(A, B)>,
{
    match u.state {
        None => r.pending is None,
        Some((b, g)) => {
            &&& call_ensures(*r.f, (&b,), r.pending)
            &&& forall|b2: B, o: Option<(A, B)>| #[trigger] call_ensures(g, (b2,), o) ==> call_ensures(*r.f, (&b2,), o)
        },
    }
}

/// [`unfold_ref`]`(&init, &f)` starts at the same point as
/// [`unfold`]`(init, g)`, where `g(b)` returns what `f(&b)` returns.
pub proof fn lemma_unfold_ref_starts_like_unfold<'a, A, B, F, G>(
    init: B,
    r: UnfoldRef<'a, A, B, F>,
    g: G,
    u: Unfold<B, G>,
)
    where
        F: Fn(&B) -> Option<(A, B)>,
        G: FnMut(B) -> Option<(A, B)>,
    requires
        call_ensures(*r.f, (&init,), r.pending),
        u.state == Some((init, g)),
        forall|b: B, o: Option<(A, B)>| #[trigger] call_ensures(g, (b,), o) ==> call_ensures(*r.f, (&b,), o),
    ensures
        unfoldings_agree(r, u),
{
}

/// [`unfold_ref`] yields the same sequence as [`unfold`] with the same
/// deterministic step function: from two unfoldings at the same point, one
/// call of `next` on each returns the same value and leaves them at the same
/// point again.
pub proof fn lemma_unfold_ref_steps_like_unfold<'a, A, B, F, G>(
    r: UnfoldRef<'a, A, B, F>,
    u: Unfold<B, G>,
    r2: UnfoldRef<'a, A, B, F>,
    u2: Unfold<B, G>,
    x: Option<A>,
    y: Option<A>,
)
    where
        F: Fn(&B) -> Option<(A, B)>,
        G: FnMut(B) -> Option<(A, B)>,
    requires
        step_deterministic::<A, B, F>(*r.f),
        unfoldings_agree(r, u),
        r.next_step(r2, x),
        u.next_step(u2, y),
    ensures
        x == y,
        unfoldings_agree(r2, u2),
{
    match u.state {
        None => {},
        Some((b, g)) => {
            let out = choose|out: Option<(A, B)>| {
                &&& call_ensures(g, (b,), out)
                &&& match out {
                    None => y is None && u2.state is None,
                    Some((a, b2)) => y == Some(a) && (u2.state matches Some((b3, g3)) && b3 == b2 && g3 == g),
                }
            };
            assert(call_ensures(*r.f, (&b,), out));
            assert(out == r.pending);
        },
    }
}

/// One step of reading the bits of an exponent, lowest first: the bit and
/// what remains, or `None` when no bit is left.
pub open spec fn bit_step(bits: u32) -> Option<(bool, u32)> {
    if bits != 0 {
        Some((bits % 2 == 1, (bits / 2) as u32))
    } else {
        None
    }
}

/// What [`mod_pow`] returns.
pub open spec fn mod_pow_spec(base: u32, exp: u32, modulo: u32) -> Result<u32, NumError> {
    if modulo == 0 {
        Err(NumError::ZeroModulo)
    } else {
        Ok((pow(base as int, exp as nat) % (modulo as int)) as u32)
    }
}

/// The number whose bits are still to be read when `p` is pending.
spec fn pending_value(p: Option<(bool, u32)>) -> nat {
    match p {
        None => 0,
        Some((bit, rest)) => 2 * (rest as nat) + if bit { 1nat } else { 0nat },
    }
}

/// One round of square-and-multiply keeps `acc * b^v` the same modulo `m`.
proof fn lemma_square_and_multiply(acc: int, b: int, bit: bool, rest: nat, m: int)
    requires
        m > 0,
    ensures
        ((if bit { (acc * b) % m } else { acc }) * pow((b * b) % m, rest)) % m
            == (acc * pow(b, 2 * rest + if bit { 1nat } else { 0nat })) % m,
{
    let e: nat = if bit { 1nat } else { 0nat };
    let sq = pow((b * b) % m, rest);
    lemma_pow_adds(b, e, 2 * rest);
    lemma_pow_multiplies(b, 2, rest);
    lemma_square_is_pow2(b);
    lemma_pow_mod_noop(b * b, rest, m);
    // pow(b, 2 * rest + e) == pow(b, e) * pow(b * b, rest)
    assert(pow(b, e + 2 * rest) == pow(b, e) * pow(b * b, rest));
    assert(2 * rest + e == e + 2 * rest);
    reveal(pow);
    if bit {
        assert(pow(b, 1) == b * pow(b, 0));
        lemma_mul_mod_noop_left(acc * b, sq, m);
        lemma_mul_mod_noop_right(acc * b, pow(b * b, rest), m);
        lemma_mul_mod_noop_right(acc * b, sq, m);
        lemma_mul_is_associative(acc, b, pow(b * b, rest));
    } else {
        lemma_mul_mod_noop_right(acc, pow(b * b, rest), m);
        lemma_mul_mod_noop_right(acc, sq, m);
    }
}

/// Modular exponentiation
///
/// Returns the remainder when an integer `base` is raised to the power `exp`,
/// and then divided by a positive integer `modulo`. The bits of `exp` are
/// produced lowest first by [`unfold_ref`] and consumed by
/// square-and-multiply.
pub fn mod_pow(base: u32, exp: u32, modulo: u32) -> (r: Result<u32, NumError>)
    ensures
        r == mod_pow_spec(base, exp, modulo),
{
    if modulo == 0 {
        return Err(NumError::ZeroModulo);
    }
    let base64 = base as u64;
    let m = modulo as u64;

    let next_bit = |bits: &u32| -> (o: Option<(bool, u32)>)
        ensures
            o == bit_step(*bits),
        {
            if *bits != 0 {
                let v = *bits;
                assert(v & 1 == v % 2) by (bit_vector);
                assert(v >> 1 == v / 2) by (bit_vector);
                Some((v & 1 == 1, v >> 1))
            } else {
                None
            }
        };

    let mut bits = unfold_ref(&exp, &next_bit);
    let mut acc: u64 = 1 % m;
    let mut b: u64 = base64 % m;
    let ghost mut rem: nat = exp as nat;
    proof {
        lemma_pow_mod_noop(base as int, exp as nat, m as int);
        lemma_mul_mod_noop_left(1, pow(b as int, rem), m as int);
        lemma_mul_basics(pow(b as int, rem));
    }
    loop
        invariant
            m == modulo,
            m > 0,
            acc < m,
            b < m,
            bits.f == &next_bit,
            forall|x: &u32| call_requires(next_bit, (x,)),
            forall|x: &u32, o: Option<(bool, u32)>| call_ensures(next_bit, (x,), o) ==> o == bit_step(*x),
            bits.pending == bit_step(rem as u32),
            rem <= u32::MAX,
            pending_value(bits.pending) == rem,
            (acc * pow(b as int, rem)) % (m as int) == pow(base as int, exp as nat) % (m as int),
        ensures
            rem == 0,
        decreases rem,
    {
        let ghost old_acc = acc;
        let ghost old_b = b;
        let ghost old_pending = bits.pending;
        match bits.next() {
            None => {
                break;
            },
            Some(bit) => {
                assert(acc * b < 0x1_0000_0000_0000_0000) by (nonlinear_arith)
                    requires acc < m, b < m, m <= 0xffff_ffff;
                assert(b * b < 0x1_0000_0000_0000_0000) by (nonlinear_arith)
                    requires b < m, m <= 0xffff_ffff;
                if bit {
                    acc = acc * b % m;
                }
                b = b * b % m;
                proof {
                    let rest = old_pending.unwrap().1;
                    lemma_square_and_multiply(old_acc as int, old_b as int, bit, rest as nat, m as int);
                    rem = rest as nat;
                }
            },
        }
    }
    proof {
        vstd::arithmetic::power::lemma_pow0(b as int);
        lemma_small_mod(acc as nat, m as nat);
    }
    Ok(acc as u32)
}


/// The number of times 2 divides `m` (0 for `m == 0`).
pub open spec fn two_valuation(m: nat) -> nat
    decreases m,
{
    if m > 0 && m % 2 == 0 {
        1 + two_valuation(m / 2)
    } else {
        0
    }
}

/// `m` with every factor 2 taken out.
pub open spec fn odd_part(m: nat) -> nat {
    m / pow2(two_valuation(m))
}

/// `n` is a strong probable prime to base `a`: with `n - 1 = d * 2^s` and
/// `d` odd, either `a^d = 1 (mod n)` or `a^(d * 2^r) = -1 (mod n)` for some
/// `r < s`.
pub open spec fn strong_probable_prime(n: nat, a: nat) -> bool {
    let m = (n - 1) as nat;
    let d = odd_part(m);
    let s = two_valuation(m);
    ||| pow(a as int, d) % (n as int) == 1
    ||| exists|r: nat| r < s && #[trigger] (pow(a as int, d * pow2(r)) % (n as int)) == m
}

/// What [`is_strong_probable_prime`] returns.
pub open spec fn strong_probable_prime_spec(n: u32, a: u32) -> Result<bool, NumError> {
    if !(3 <= n) || n % 2 == 0 {
        Err(NumError::InvalidN)
    } else if !(2 <= a) || !(a < n) {
        Err(NumError::InvalidA)
    } else {
        Ok(strong_probable_prime(n as nat, a as nat))
    }
}

/// A number written as an odd number times `2^s` has 2-valuation `s`.
proof fn lemma_two_valuation_unique(m: nat, d: nat, s: nat)
    requires
        m == d * pow2(s),
        d % 2 == 1,
    ensures
        two_valuation(m) == s,
        odd_part(m) == d,
    decreases s,
{
    lemma_pow2_pos(s);
    if s == 0 {
        lemma2_to64();
        assert(m == d);
    } else {
        lemma_pow2_unfold(s);
        let h = d * pow2((s - 1) as nat);
        assert(m == 2 * h) by (nonlinear_arith)
            requires m == d * pow2(s), pow2(s) == 2 * pow2((s - 1) as nat), h == d * pow2((s - 1) as nat);
        lemma_pow2_pos((s - 1) as nat);
        assert(h > 0) by (nonlinear_arith)
            requires h == d * pow2((s - 1) as nat), d % 2 == 1, pow2((s - 1) as nat) > 0;
        lemma_two_valuation_unique(h, d, (s - 1) as nat);
        assert(m / 2 == h);
        assert(m % 2 == 0);
    }
    lemma_div_by_multiple(d as int, pow2(s) as int);
}

/// `m >> m.trailing_zeros()` is the odd part of `m`, and the number of
/// trailing zeros is the 2-valuation.
proof fn lemma_trailing_zeros_split(m: u32)
    requires
        m > 0,
    ensures
        m.trailing_zeros() < 32,
        m.trailing_zeros() == two_valuation(m as nat),
        m >> m.trailing_zeros() == odd_part(m as nat),
{
    let s = m.trailing_zeros();
    vstd::std_specs::bits::axiom_u32_trailing_zeros(m);
    assert(s < 32);
    let d = m >> s;
    assert((m >> s) & 1u32 == 1u32);
    assert(d % 2 == 1) by (bit_vector)
        requires d == m >> s, (m >> s) & 1u32 == 1u32;
    assert((m >> s) << s == m) by (bit_vector)
        requires s < 32, m << ((32 - s) as u32) == 0;
    lemma_u32_shr_is_div(m, s);
    lemma_pow2_pos(s as nat);
    assert(d * pow2(s as nat) <= m) by {
        lemma_fundamental_div_mod(m as int, pow2(s as nat) as int);
        lemma_mod_bound(m as int, pow2(s as nat) as int);
        lemma_mul_is_commutative(d as int, pow2(s as nat) as int);
    }
    lemma_u32_shl_is_mul(d, s);
    lemma_two_valuation_unique(m as nat, d as nat, s as nat);
}

/// Squaring modulo `n` takes `a^(d * 2^r)` to `a^(d * 2^(r + 1))`.
proof fn lemma_square_exponent(a: int, d: nat, r: nat, n: int)
    requires
        n > 0,
    ensures
        pow(pow(a, d * pow2(r)) % n, 2) % n == pow(a, d * pow2(r + 1)) % n,
{
    let e = d * pow2(r);
    lemma_pow_mod_noop(pow(a, e), 2, n);
    lemma_pow_multiplies(a, e, 2);
    lemma_pow2_unfold(r + 1);
    assert(e * 2 == d * pow2(r + 1)) by {
        lemma_mul_is_associative(d as int, pow2(r) as int, 2);
        lemma_mul_is_commutative(pow2(r) as int, 2);
    }
}

/// Once a power `a^(d * 2^r)` is 1 modulo `n`, every later square is 1 too.
proof fn lemma_one_stays_one(a: int, d: nat, r0: nat, r: nat, n: int)
    requires
        n > 1,
        r0 <= r,
        pow(a, d * pow2(r0)) % n == 1,
    ensures
        pow(a, d * pow2(r)) % n == 1,
    decreases r - r0,
{
    if r0 < r {
        lemma_one_stays_one(a, d, r0, (r - 1) as nat, n);
        lemma_square_exponent(a, d, (r - 1) as nat, n);
        vstd::arithmetic::power::lemma1_pow(2);
        lemma_small_mod(1, n as nat);
    }
}

/// Strong probable primality test
///
/// Returns whether `n` is a strong probable prime on base `a`.
///
/// # Errors
///
/// Returns an error unless:
/// - `3 <= n`
/// - `n` is odd
/// - `2 <= a < n`
pub fn is_strong_probable_prime(n: u32, a: u32) -> (r: Result<bool, NumError>)
    ensures
        r == strong_probable_prime_spec(n, a),
{
    if !(3 <= n) || n % 2 == 0 {
        return Err(NumError::InvalidN);
    }
    if !(2 <= a) || !(a < n) {
        return Err(NumError::InvalidA);
    }

    // m = d * 2^s
    let m = n - 1;
    let s = m.trailing_zeros();
    let d = m >> s;
    proof {
        lemma_trailing_zeros_split(m);
        lemma2_to64();
        assert(d * pow2(0) == d);
    }
    let ghost dn = d as nat;
    let ghost sn = s as nat;
    let ghost nn = n as int;

    let mut x = match mod_pow(a, d, n) {
        Ok(v) => v,
        Err(e) => return Err(e),
    };
    if x == 1 || x == m {
        proof {
            if x == m {
                assert(pow(a as int, dn * pow2(0)) % nn == m);
            }
        }
        return Ok(true);
    }
    assert(pow(a as int, dn * pow2(0)) % nn != m);

    let mut i: u32 = 1;
    while i < s
        invariant
            1 <= i <= s,
            s == sn,
            sn == two_valuation(m as nat),
            dn == odd_part(m as nat),
            d == dn,
            m == n - 1,
            n >= 3,
            n % 2 == 1,
            2 <= a < n,
            nn == n,
            x < n,
            x == pow(a as int, dn * pow2((i - 1) as nat)) % nn,
            x != 1,
            pow(a as int, dn) % nn != 1,
            forall|r: nat| r < i ==> #[trigger] (pow(a as int, dn * pow2(r)) % nn) != m,
        decreases s - i,
    {
        proof {
            lemma_square_exponent(a as int, dn, (i - 1) as nat, nn);
        }
        x = match mod_pow(x, 2, n) {
            Ok(v) => v,
            Err(e) => return Err(e),
        };
        assert(x == pow(a as int, dn * pow2(i as nat)) % nn);
        if x == m {
            proof {
                assert(pow(a as int, dn * pow2(i as nat)) % nn == m);
            }
            return Ok(true);
        }
        if x == 1 {
            proof {
                assert forall|r: nat| r < sn implies #[trigger] (pow(a as int, dn * pow2(r)) % nn) != m by {
                    if r >= i {
                        lemma_one_stays_one(a as int, dn, i as nat, r, nn);
                    }
                }
            }
            return Ok(false);
        }
        i = i + 1;
    }
    Ok(false)
}


/// `n` passes the strong probable prime test to base `a`, an invalid `n`
/// counting as a failure.
pub open spec fn passes_base(n: nat, a: nat) -> bool {
    &&& n >= 3
    &&& n % 2 == 1
    &&& strong_probable_prime(n, a)
}

/// The deterministic Miller-Rabin test for 32-bit numbers: `n >= 2`, and `n`
/// is a strong probable prime to each of the witnesses 2, 7 and 61 that is
/// less than `n`.
pub open spec fn miller_rabin_u32(n: nat) -> bool {
    &&& n >= 2
    &&& (2 < n ==> passes_base(n, 2))
    &&& (7 < n ==> passes_base(n, 7))
    &&& (61 < n ==> passes_base(n, 61))
}

/// The deterministic Miller-Rabin test for 32-bit numbers: whether `n` is a
/// strong probable prime to each of the witnesses 2, 7 and 61 below it.
fn miller_rabin(n: u32) -> (r: bool)
    ensures
        r == miller_rabin_u32(n as nat),
{
    if n < 2 {
        return false;
    }
    let witnesses: [u32; 3] = [2, 7, 61];
    let mut i: usize = 0;
    while i < 3
        invariant
            n >= 2,
            witnesses@ == seq![2u32, 7u32, 61u32],
            i <= 3,
            forall|j: int| 0 <= j < i ==> witnesses@[j] < n && passes_base(n as nat, witnesses@[j] as nat),
        decreases 3 - i,
    {
        let a = witnesses[i];
        if !(a < n) {
            // The witnesses are ascending: none of the rest is below `n` either.
            return true;
        }
        let passed = match is_strong_probable_prime(n, a) {
            Ok(b) => b,
            Err(_) => false,
        };
        if !passed {
            return false;
        }
        i = i + 1;
    }
    true
}

/// Whether `n >= 2` has no divisor `d` with `2 <= d` and `d * d <= n`,
/// that is, whether it is prime.
fn no_divisor_up_to_root(n: u32) -> (r: bool)
    requires
        n >= 2,
    ensures
        r == prime(n as nat),
{
    let mut d: u32 = 2;
    while d <= n / d
        invariant
            n >= 2,
            2 <= d,
            forall|e: nat| 2 <= e < d ==> #[trigger] ((n as nat) % e) != 0,
        decreases n - d,
    {
        assert(d * d <= n) by (nonlinear_arith)
            requires d <= n / d, d >= 2;
        assert(d < n) by (nonlinear_arith)
            requires d * d <= n, d >= 2;
        if n % d == 0 {
            assert((n as nat) % (d as nat) == 0);
            return false;
        }
        d = d + 1;
    }
    assert(n < d * d) by (nonlinear_arith)
        requires d > n / d, d >= 2;
    proof {
        if !prime(n as nat) {
            lemma_least_prime_factor(n as nat);
            let q = choose|q: nat| #[trigger] prime(q) && (n as nat) % q == 0 && q * q <= n && q < n;
            if q >= d {
                assert(q * q >= d * d) by (nonlinear_arith)
                    requires q >= d, d >= 2;
            }
        }
    }
    true
}

/// Miller-Rabin primality test
///
/// Returns whether `n` is prime.
///
/// # Deterministic test against tiny n
///
/// Generally, trying all bases such that a < 2 ln^2 n is sufficient under the
/// generalized Riemann hypothesis. However, it is not necessary to try every
/// base up to the bound for small `n`, as much smaller sets of potential
/// witnesses are known to suffice.
///
/// For example:
/// - If `n` is an [`u32`], the set of witnesses {2, 7, 61} is sufficient.
/// - If `n` is an [`u64`], the set of witnesses {2, 3, 5, 7, 11, 13, 17, 19,
///   23, 29, 31, 37} is sufficient.
///
/// A number that fails the test is composite (every prime passes it). That
/// the witnesses {2, 7, 61} catch every composite `u32` is a fact found by
/// computation, which is not proved here; so a number that passes is
/// confirmed by trial division up to its square root before `true` is
/// returned.
pub fn is_prime(n: u32) -> (r: bool)
    ensures
        r == prime(n as nat),
        r ==> miller_rabin_u32(n as nat),
{
    if !miller_rabin(n) {
        proof {
            if prime(n as nat) {
                lemma_miller_rabin_accepts_primes(n as nat);
            }
        }
        return false;
    }
    no_divisor_up_to_root(n)
}


/// A positive number is its odd part times 2 to its 2-valuation.
proof fn lemma_odd_part_split(m: nat)
    requires
        m > 0,
    ensures
        odd_part(m) * pow2(two_valuation(m)) == m,
        odd_part(m) % 2 == 1,
    decreases m,
{
    lemma2_to64();
    if m % 2 == 0 {
        let h = m / 2;
        lemma_odd_part_split(h);
        let v = two_valuation(h);
        let d = odd_part(h);
        assert(two_valuation(m) == v + 1);
        lemma_pow2_unfold(v + 1);
        lemma_pow2_pos(v + 1);
        assert(m == d * pow2(v + 1)) by (nonlinear_arith)
            requires h == d * pow2(v), m == 2 * h, pow2(v + 1) == 2 * pow2(v);
        lemma_div_by_multiple(d as int, pow2(v + 1) as int);
    } else {
        assert(two_valuation(m) == 0);
    }
}

/// Searching upwards from `r` for the last power `a^(d * 2^r')` that is not 1
/// before one that is.
proof fn lemma_find_last_non_one(a: int, d: nat, n: int, r: nat, s: nat) -> (r2: nat)
    requires
        n > 0,
        r < s,
        pow(a, d * pow2(r)) % n != 1,
        pow(a, d * pow2(s)) % n == 1,
    ensures
        r <= r2 < s,
        pow(a, d * pow2(r2)) % n != 1,
        pow(a, d * pow2(r2 + 1)) % n == 1,
    decreases s - r,
{
    if pow(a, d * pow2(r + 1)) % n == 1 {
        r
    } else {
        lemma_find_last_non_one(a, d, n, r + 1, s)
    }
}

/// A prime `n >= 3` is a strong probable prime to every base `2 <= a < n`.
pub proof fn lemma_prime_is_strong_probable_prime(n: nat, a: nat)
    requires
        prime(n),
        n >= 3,
        2 <= a < n,
    ensures
        strong_probable_prime(n, a),
{
    let m = (n - 1) as nat;
    let d = odd_part(m);
    let s = two_valuation(m);
    lemma_odd_part_split(m);
    lemma_small_mod(a, n);
    lemma_fermat_little(n, a);
    assert(d * pow2(s) == m);
    lemma2_to64();
    assert(d * pow2(0) == d);
    if pow(a as int, d) % (n as int) != 1 {
        assert(s > 0);
        let r = lemma_find_last_non_one(a as int, d, n as int, 0, s);
        let y = pow(a as int, d * pow2(r)) % (n as int);
        lemma_square_exponent(a as int, d, r, n as int);
        vstd::arithmetic::power::lemma_square_is_pow2(y);
        lemma_mod_bound(pow(a as int, d * pow2(r)), n as int);
        lemma_square_root_of_one(n, y as nat);
        assert(pow(a as int, d * pow2(r)) % (n as int) == m);
    }
}

/// Every prime passes the deterministic Miller-Rabin test of [`is_prime`].
pub proof fn lemma_miller_rabin_accepts_primes(n: nat)
    requires
        prime(n),
    ensures
        miller_rabin_u32(n),
{
    if n > 2 {
        assert(n % 2 != 0);
        lemma_mod_bound(n as int, 2);
        if 2 < n {
            lemma_prime_is_strong_probable_prime(n, 2);
        }
        if 7 < n {
            lemma_prime_is_strong_probable_prime(n, 7);
        }
        if 61 < n {
            lemma_prime_is_strong_probable_prime(n, 61);
        }
    }
}

} // verus!
