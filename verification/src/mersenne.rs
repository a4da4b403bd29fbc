//! The Mersenne numbers `2^p - 1` for `p <= 64`, and what the two
//! Lucas-Lehmer tests of the library answer for each of them. The
//! Lucas-Lehmer walk modulo `2^p - 1` is evaluated term by term for each
//! odd `p` up to 63; for every other `p` a factor of `2^p - 1` is given.
use vstd::prelude::*;
use vstd::arithmetic::power2::{lemma2_to64, lemma2_to64_rest};
use crate::arith::{prime, lemma_least_prime_factor};
use crate::successors::{mersenne, mersenne_exp_spec};
use crate::iterate::{lucas_lehmer_iterate_term, lucas_lehmer_spec, lemma_lucas_lehmer_walks_agree};

verus! {

/// The exponents up to 64 that OEIS A000043 lists, those of the Mersenne
/// primes: 2, 3, 5, 7, 13, 17, 19, 31 and 61.
pub open spec fn listed_mersenne_exponent(p: nat) -> bool {
    p == 2 || p == 3 || p == 5 || p == 7 || p == 13 || p == 17 || p == 19 || p == 31 || p == 61
}

/// No term of the walk modulo `m` below index `i` is 0.
pub open spec fn lucas_lehmer_zero_free(m: int, i: nat) -> bool
    decreases i,
{
    i == 0 || (lucas_lehmer_zero_free(m, (i - 1) as nat) && lucas_lehmer_iterate_term(m, (i - 1) as nat) != 0)
}

/// What [`lucas_lehmer_zero_free`] says, for each index on its own.
proof fn lemma_zero_free_below(m: int, i: nat, j: nat)
    requires
        lucas_lehmer_zero_free(m, i),
        j < i,
    ensures
        lucas_lehmer_iterate_term(m, j) != 0,
    decreases i,
{
    if j + 1 < i {
        lemma_zero_free_below(m, (i - 1) as nat, j);
    }
}

/// The walk modulo `2^3 - 1`.
proof fn lemma_walk_3()
    ensures
        lucas_lehmer_zero_free(mersenne(3), 1),
        lucas_lehmer_iterate_term(mersenne(3), 1) == 0,
{
    lemma2_to64();
    let m: int = 7;
    assert(mersenne(3) == m);
    assert(lucas_lehmer_zero_free(m, 0));
    assert(lucas_lehmer_iterate_term(m, 0) == 4 && lucas_lehmer_zero_free(m, 1));
    assert(lucas_lehmer_iterate_term(m, 1) == 0);
}

/// The walk modulo `2^5 - 1`.
proof fn lemma_walk_5()
    ensures
        lucas_lehmer_zero_free(mersenne(5), 3),
        lucas_lehmer_iterate_term(mersenne(5), 3) == 0,
{
    lemma2_to64();
    let m: int = 31;
    assert(mersenne(5) == m);
    assert(lucas_lehmer_zero_free(m, 0));
    assert(lucas_lehmer_iterate_term(m, 0) == 4 && lucas_lehmer_zero_free(m, 1));
    assert(lucas_lehmer_iterate_term(m, 1) == 14 && lucas_lehmer_zero_free(m, 2));
    assert(lucas_lehmer_iterate_term(m, 2) == 8 && lucas_lehmer_zero_free(m, 3));
    assert(lucas_lehmer_iterate_term(m, 3) == 0);
}

/// The walk modulo `2^7 - 1`.
proof fn lemma_walk_7()
    ensures
        lucas_lehmer_zero_free(mersenne(7), 5),
        lucas_lehmer_iterate_term(mersenne(7), 5) == 0,
{
    lemma2_to64();
    let m: int = 127;
    assert(mersenne(7) == m);
    assert(lucas_lehmer_zero_free(m, 0));
    assert(lucas_lehmer_iterate_term(m, 0) == 4 && lucas_lehmer_zero_free(m, 1));
    assert(lucas_lehmer_iterate_term(m, 1) == 14 && lucas_lehmer_zero_free(m, 2));
    assert(lucas_lehmer_iterate_term(m, 2) == 67 && lucas_lehmer_zero_free(m, 3));
    assert(lucas_lehmer_iterate_term(m, 3) == 42 && lucas_lehmer_zero_free(m, 4));
    assert(lucas_lehmer_iterate_term(m, 4) == 111 && lucas_lehmer_zero_free(m, 5));
    assert(lucas_lehmer_iterate_term(m, 5) == 0);
}

/// The walk modulo `2^9 - 1`.
proof fn lemma_walk_9()
    ensures
        lucas_lehmer_zero_free(mersenne(9), 7),
        lucas_lehmer_iterate_term(mersenne(9), 7) == 205,
{
    lemma2_to64();
    let m: int = 511;
    assert(mersenne(9) == m);
    assert(lucas_lehmer_zero_free(m, 0));
    assert(lucas_lehmer_iterate_term(m, 0) == 4 && lucas_lehmer_zero_free(m, 1));
    assert(lucas_lehmer_iterate_term(m, 1) == 14 && lucas_lehmer_zero_free(m, 2));
    assert(lucas_lehmer_iterate_term(m, 2) == 194 && lucas_lehmer_zero_free(m, 3));
    assert(lucas_lehmer_iterate_term(m, 3) == 331 && lucas_lehmer_zero_free(m, 4));
    assert(lucas_lehmer_iterate_term(m, 4) == 205 && lucas_lehmer_zero_free(m, 5));
    assert(lucas_lehmer_iterate_term(m, 5) == 121 && lucas_lehmer_zero_free(m, 6));
    assert(lucas_lehmer_iterate_term(m, 6) == 331 && lucas_lehmer_zero_free(m, 7));
    assert(lucas_lehmer_iterate_term(m, 7) == 205);
}

/// The walk modulo `2^11 - 1`.
proof fn lemma_walk_11()
    ensures
        lucas_lehmer_zero_free(mersenne(11), 9),
        lucas_lehmer_iterate_term(mersenne(11), 9) == 1736,
{
    lemma2_to64();
    let m: int = 2047;
    assert(mersenne(11) == m);
    assert(lucas_lehmer_zero_free(m, 0));
    assert(lucas_lehmer_iterate_term(m, 0) == 4 && lucas_lehmer_zero_free(m, 1));
    assert(lucas_lehmer_iterate_term(m, 1) == 14 && lucas_lehmer_zero_free(m, 2));
    assert(lucas_lehmer_iterate_term(m, 2) == 194 && lucas_lehmer_zero_free(m, 3));
    assert(lucas_lehmer_iterate_term(m, 3) == 788 && lucas_lehmer_zero_free(m, 4));
    assert(lucas_lehmer_iterate_term(m, 4) == 701 && lucas_lehmer_zero_free(m, 5));
    assert(lucas_lehmer_iterate_term(m, 5) == 119 && lucas_lehmer_zero_free(m, 6));
    assert(lucas_lehmer_iterate_term(m, 6) == 1877 && lucas_lehmer_zero_free(m, 7));
    assert(lucas_lehmer_iterate_term(m, 7) == 240 && lucas_lehmer_zero_free(m, 8));
    assert(lucas_lehmer_iterate_term(m, 8) == 282 && lucas_lehmer_zero_free(m, 9));
    assert(lucas_lehmer_iterate_term(m, 9) == 1736);
}

/// The walk modulo `2^13 - 1`.
proof fn lemma_walk_13()
    ensures
        lucas_lehmer_zero_free(mersenne(13), 11),
        lucas_lehmer_iterate_term(mersenne(13), 11) == 0,
{
    lemma2_to64();
    let m: int = 8191;
    assert(mersenne(13) == m);
    assert(lucas_lehmer_zero_free(m, 0));
    assert(lucas_lehmer_iterate_term(m, 0) == 4 && lucas_lehmer_zero_free(m, 1));
    assert(lucas_lehmer_iterate_term(m, 1) == 14 && lucas_lehmer_zero_free(m, 2));
    assert(lucas_lehmer_iterate_term(m, 2) == 194 && lucas_lehmer_zero_free(m, 3));
    assert(lucas_lehmer_iterate_term(m, 3) == 4870 && lucas_lehmer_zero_free(m, 4));
    assert(lucas_lehmer_iterate_term(m, 4) == 3953 && lucas_lehmer_zero_free(m, 5));
    assert(lucas_lehmer_iterate_term(m, 5) == 5970 && lucas_lehmer_zero_free(m, 6));
    assert(lucas_lehmer_iterate_term(m, 6) == 1857 && lucas_lehmer_zero_free(m, 7));
    assert(lucas_lehmer_iterate_term(m, 7) == 36 && lucas_lehmer_zero_free(m, 8));
    assert(lucas_lehmer_iterate_term(m, 8) == 1294 && lucas_lehmer_zero_free(m, 9));
    assert(lucas_lehmer_iterate_term(m, 9) == 3470 && lucas_lehmer_zero_free(m, 10));
    assert(lucas_lehmer_iterate_term(m, 10) == 128 && lucas_lehmer_zero_free(m, 11));
    assert(lucas_lehmer_iterate_term(m, 11) == 0);
}

/// The walk modulo `2^15 - 1`.
proof fn lemma_walk_15()
    ensures
        lucas_lehmer_zero_free(mersenne(15), 13),
        lucas_lehmer_iterate_term(mersenne(15), 13) == 20400,
{
    lemma2_to64();
    let m: int = 32767;
    assert(mersenne(15) == m);
    assert(lucas_lehmer_zero_free(m, 0));
    assert(lucas_lehmer_iterate_term(m, 0) == 4 && lucas_lehmer_zero_free(m, 1));
    assert(lucas_lehmer_iterate_term(m, 1) == 14 && lucas_lehmer_zero_free(m, 2));
    assert(lucas_lehmer_iterate_term(m, 2) == 194 && lucas_lehmer_zero_free(m, 3));
    assert(lucas_lehmer_iterate_term(m, 3) == 4867 && lucas_lehmer_zero_free(m, 4));
    assert(lucas_lehmer_iterate_term(m, 4) == 29913 && lucas_lehmer_zero_free(m, 5));
    assert(lucas_lehmer_iterate_term(m, 5) == 19098 && lucas_lehmer_zero_free(m, 6));
    assert(lucas_lehmer_iterate_term(m, 6) == 4125 && lucas_lehmer_zero_free(m, 7));
    assert(lucas_lehmer_iterate_term(m, 7) == 9550 && lucas_lehmer_zero_free(m, 8));
    assert(lucas_lehmer_iterate_term(m, 8) == 11937 && lucas_lehmer_zero_free(m, 9));
    assert(lucas_lehmer_iterate_term(m, 9) == 21051 && lucas_lehmer_zero_free(m, 10));
    assert(lucas_lehmer_iterate_term(m, 10) == 3691 && lucas_lehmer_zero_free(m, 11));
    assert(lucas_lehmer_iterate_term(m, 11) == 25174 && lucas_lehmer_zero_free(m, 12));
    assert(lucas_lehmer_iterate_term(m, 12) == 16494 && lucas_lehmer_zero_free(m, 13));
    assert(lucas_lehmer_iterate_term(m, 13) == 20400);
}

/// The walk modulo `2^17 - 1`.
proof fn lemma_walk_17()
    ensures
        lucas_lehmer_zero_free(mersenne(17), 15),
        lucas_lehmer_iterate_term(mersenne(17), 15) == 0,
{
    lemma2_to64();
    let m: int = 131071;
    assert(mersenne(17) == m);
    assert(lucas_lehmer_zero_free(m, 0));
    assert(lucas_lehmer_iterate_term(m, 0) == 4 && lucas_lehmer_zero_free(m, 1));
    assert(lucas_lehmer_iterate_term(m, 1) == 14 && lucas_lehmer_zero_free(m, 2));
    assert(lucas_lehmer_iterate_term(m, 2) == 194 && lucas_lehmer_zero_free(m, 3));
    assert(lucas_lehmer_iterate_term(m, 3) == 37634 && lucas_lehmer_zero_free(m, 4));
    assert(lucas_lehmer_iterate_term(m, 4) == 95799 && lucas_lehmer_zero_free(m, 5));
    assert(lucas_lehmer_iterate_term(m, 5) == 119121 && lucas_lehmer_zero_free(m, 6));
    assert(lucas_lehmer_iterate_term(m, 6) == 66179 && lucas_lehmer_zero_free(m, 7));
    assert(lucas_lehmer_iterate_term(m, 7) == 53645 && lucas_lehmer_zero_free(m, 8));
    assert(lucas_lehmer_iterate_term(m, 8) == 122218 && lucas_lehmer_zero_free(m, 9));
    assert(lucas_lehmer_iterate_term(m, 9) == 126220 && lucas_lehmer_zero_free(m, 10));
    assert(lucas_lehmer_iterate_term(m, 10) == 70490 && lucas_lehmer_zero_free(m, 11));
    assert(lucas_lehmer_iterate_term(m, 11) == 69559 && lucas_lehmer_zero_free(m, 12));
    assert(lucas_lehmer_iterate_term(m, 12) == 99585 && lucas_lehmer_zero_free(m, 13));
    assert(lucas_lehmer_iterate_term(m, 13) == 78221 && lucas_lehmer_zero_free(m, 14));
    assert(lucas_lehmer_iterate_term(m, 14) == 130559 && lucas_lehmer_zero_free(m, 15));
    assert(lucas_lehmer_iterate_term(m, 15) == 0);
}

/// The walk modulo `2^19 - 1`.
proof fn lemma_walk_19()
    ensures
        lucas_lehmer_zero_free(mersenne(19), 17),
        lucas_lehmer_iterate_term(mersenne(19), 17) == 0,
{
    lemma2_to64();
    let m: int = 524287;
    assert(mersenne(19) == m);
    assert(lucas_lehmer_zero_free(m, 0));
    assert(lucas_lehmer_iterate_term(m, 0) == 4 && lucas_lehmer_zero_free(m, 1));
    assert(lucas_lehmer_iterate_term(m, 1) == 14 && lucas_lehmer_zero_free(m, 2));
    assert(lucas_lehmer_iterate_term(m, 2) == 194 && lucas_lehmer_zero_free(m, 3));
    assert(lucas_lehmer_iterate_term(m, 3) == 37634 && lucas_lehmer_zero_free(m, 4));
    assert(lucas_lehmer_iterate_term(m, 4) == 218767 && lucas_lehmer_zero_free(m, 5));
    assert(lucas_lehmer_iterate_term(m, 5) == 510066 && lucas_lehmer_zero_free(m, 6));
    assert(lucas_lehmer_iterate_term(m, 6) == 386344 && lucas_lehmer_zero_free(m, 7));
    assert(lucas_lehmer_iterate_term(m, 7) == 323156 && lucas_lehmer_zero_free(m, 8));
    assert(lucas_lehmer_iterate_term(m, 8) == 218526 && lucas_lehmer_zero_free(m, 9));
    assert(lucas_lehmer_iterate_term(m, 9) == 504140 && lucas_lehmer_zero_free(m, 10));
    assert(lucas_lehmer_iterate_term(m, 10) == 103469 && lucas_lehmer_zero_free(m, 11));
    assert(lucas_lehmer_iterate_term(m, 11) == 417706 && lucas_lehmer_zero_free(m, 12));
    assert(lucas_lehmer_iterate_term(m, 12) == 307417 && lucas_lehmer_zero_free(m, 13));
    assert(lucas_lehmer_iterate_term(m, 13) == 382989 && lucas_lehmer_zero_free(m, 14));
    assert(lucas_lehmer_iterate_term(m, 14) == 275842 && lucas_lehmer_zero_free(m, 15));
    assert(lucas_lehmer_iterate_term(m, 15) == 85226 && lucas_lehmer_zero_free(m, 16));
    assert(lucas_lehmer_iterate_term(m, 16) == 523263 && lucas_lehmer_zero_free(m, 17));
    assert(lucas_lehmer_iterate_term(m, 17) == 0);
}

/// The walk modulo `2^21 - 1`.
proof fn lemma_walk_21()
    ensures
        lucas_lehmer_zero_free(mersenne(21), 19),
        lucas_lehmer_iterate_term(mersenne(21), 19) == 840107,
{
    lemma2_to64();
    let m: int = 2097151;
    assert(mersenne(21) == m);
    assert(lucas_lehmer_zero_free(m, 0));
    assert(lucas_lehmer_iterate_term(m, 0) == 4 && lucas_lehmer_zero_free(m, 1));
    assert(lucas_lehmer_iterate_term(m, 1) == 14 && lucas_lehmer_zero_free(m, 2));
    assert(lucas_lehmer_iterate_term(m, 2) == 194 && lucas_lehmer_zero_free(m, 3));
    assert(lucas_lehmer_iterate_term(m, 3) == 37634 && lucas_lehmer_zero_free(m, 4));
    assert(lucas_lehmer_iterate_term(m, 4) == 741029 && lucas_lehmer_zero_free(m, 5));
    assert(lucas_lehmer_iterate_term(m, 5) == 1766697 && lucas_lehmer_zero_free(m, 6));
    assert(lucas_lehmer_iterate_term(m, 6) == 1193544 && lucas_lehmer_zero_free(m, 7));
    assert(lucas_lehmer_iterate_term(m, 7) == 840107 && lucas_lehmer_zero_free(m, 8));
    assert(lucas_lehmer_iterate_term(m, 8) == 379605 && lucas_lehmer_zero_free(m, 9));
    assert(lucas_lehmer_iterate_term(m, 9) == 516511 && lucas_lehmer_zero_free(m, 10));
    assert(lucas_lehmer_iterate_term(m, 10) == 840107 && lucas_lehmer_zero_free(m, 11));
    assert(lucas_lehmer_iterate_term(m, 11) == 379605 && lucas_lehmer_zero_free(m, 12));
    assert(lucas_lehmer_iterate_term(m, 12) == 516511 && lucas_lehmer_zero_free(m, 13));
    assert(lucas_lehmer_iterate_term(m, 13) == 840107 && lucas_lehmer_zero_free(m, 14));
    assert(lucas_lehmer_iterate_term(m, 14) == 379605 && lucas_lehmer_zero_free(m, 15));
    assert(lucas_lehmer_iterate_term(m, 15) == 516511 && lucas_lehmer_zero_free(m, 16));
    assert(lucas_lehmer_iterate_term(m, 16) == 840107 && lucas_lehmer_zero_free(m, 17));
    assert(lucas_lehmer_iterate_term(m, 17) == 379605 && lucas_lehmer_zero_free(m, 18));
    assert(lucas_lehmer_iterate_term(m, 18) == 516511 && lucas_lehmer_zero_free(m, 19));
    assert(lucas_lehmer_iterate_term(m, 19) == 840107);
}

/// The walk modulo `2^23 - 1`.
proof fn lemma_walk_23()
    ensures
        lucas_lehmer_zero_free(mersenne(23), 21),
        lucas_lehmer_iterate_term(mersenne(23), 21) == 6107895,
{
    lemma2_to64();
    let m: int = 8388607;
    assert(mersenne(23) == m);
    assert(lucas_lehmer_zero_free(m, 0));
    assert(lucas_lehmer_iterate_term(m, 0) == 4 && lucas_lehmer_zero_free(m, 1));
    assert(lucas_lehmer_iterate_term(m, 1) == 14 && lucas_lehmer_zero_free(m, 2));
    assert(lucas_lehmer_iterate_term(m, 2) == 194 && lucas_lehmer_zero_free(m, 3));
    assert(lucas_lehmer_iterate_term(m, 3) == 37634 && lucas_lehmer_zero_free(m, 4));
    assert(lucas_lehmer_iterate_term(m, 4) == 7031978 && lucas_lehmer_zero_free(m, 5));
    assert(lucas_lehmer_iterate_term(m, 5) == 7033660 && lucas_lehmer_zero_free(m, 6));
    assert(lucas_lehmer_iterate_term(m, 6) == 1176429 && lucas_lehmer_zero_free(m, 7));
    assert(lucas_lehmer_iterate_term(m, 7) == 7643358 && lucas_lehmer_zero_free(m, 8));
    assert(lucas_lehmer_iterate_term(m, 8) == 3179743 && lucas_lehmer_zero_free(m, 9));
    assert(lucas_lehmer_iterate_term(m, 9) == 2694768 && lucas_lehmer_zero_free(m, 10));
    assert(lucas_lehmer_iterate_term(m, 10) == 763525 && lucas_lehmer_zero_free(m, 11));
    assert(lucas_lehmer_iterate_term(m, 11) == 4182158 && lucas_lehmer_zero_free(m, 12));
    assert(lucas_lehmer_iterate_term(m, 12) == 7004001 && lucas_lehmer_zero_free(m, 13));
    assert(lucas_lehmer_iterate_term(m, 13) == 1531454 && lucas_lehmer_zero_free(m, 14));
    assert(lucas_lehmer_iterate_term(m, 14) == 5888805 && lucas_lehmer_zero_free(m, 15));
    assert(lucas_lehmer_iterate_term(m, 15) == 1140622 && lucas_lehmer_zero_free(m, 16));
    assert(lucas_lehmer_iterate_term(m, 16) == 4321431 && lucas_lehmer_zero_free(m, 17));
    assert(lucas_lehmer_iterate_term(m, 17) == 7041324 && lucas_lehmer_zero_free(m, 18));
    assert(lucas_lehmer_iterate_term(m, 18) == 2756392 && lucas_lehmer_zero_free(m, 19));
    assert(lucas_lehmer_iterate_term(m, 19) == 1280050 && lucas_lehmer_zero_free(m, 20));
    assert(lucas_lehmer_iterate_term(m, 20) == 6563009 && lucas_lehmer_zero_free(m, 21));
    assert(lucas_lehmer_iterate_term(m, 21) == 6107895);
}

/// The walk modulo `2^25 - 1`.
proof fn lemma_walk_25()
    ensures
        lucas_lehmer_zero_free(mersenne(25), 23),
        lucas_lehmer_iterate_term(mersenne(25), 23) == 8772568,
{
    lemma2_to64();
    let m: int = 33554431;
    assert(mersenne(25) == m);
    assert(lucas_lehmer_zero_free(m, 0));
    assert(lucas_lehmer_iterate_term(m, 0) == 4 && lucas_lehmer_zero_free(m, 1));
    assert(lucas_lehmer_iterate_term(m, 1) == 14 && lucas_lehmer_zero_free(m, 2));
    assert(lucas_lehmer_iterate_term(m, 2) == 194 && lucas_lehmer_zero_free(m, 3));
    assert(lucas_lehmer_iterate_term(m, 3) == 37634 && lucas_lehmer_zero_free(m, 4));
    assert(lucas_lehmer_iterate_term(m, 4) == 7031852 && lucas_lehmer_zero_free(m, 5));
    assert(lucas_lehmer_iterate_term(m, 5) == 25732079 && lucas_lehmer_zero_free(m, 6));
    assert(lucas_lehmer_iterate_term(m, 6) == 1528922 && lucas_lehmer_zero_free(m, 7));
    assert(lucas_lehmer_iterate_term(m, 7) == 33046467 && lucas_lehmer_zero_free(m, 8));
    assert(lucas_lehmer_iterate_term(m, 8) == 27405335 && lucas_lehmer_zero_free(m, 9));
    assert(lucas_lehmer_iterate_term(m, 9) == 619537 && lucas_lehmer_zero_free(m, 10));
    assert(lucas_lehmer_iterate_term(m, 10) == 30512589 && lucas_lehmer_zero_free(m, 11));
    assert(lucas_lehmer_iterate_term(m, 11) == 632557 && lucas_lehmer_zero_free(m, 12));
    assert(lucas_lehmer_iterate_term(m, 12) == 25323003 && lucas_lehmer_zero_free(m, 13));
    assert(lucas_lehmer_iterate_term(m, 13) == 11509744 && lucas_lehmer_zero_free(m, 14));
    assert(lucas_lehmer_iterate_term(m, 14) == 4734725 && lucas_lehmer_zero_free(m, 15));
    assert(lucas_lehmer_iterate_term(m, 15) == 6137816 && lucas_lehmer_zero_free(m, 16));
    assert(lucas_lehmer_iterate_term(m, 16) == 17606638 && lucas_lehmer_zero_free(m, 17));
    assert(lucas_lehmer_iterate_term(m, 17) == 17127750 && lucas_lehmer_zero_free(m, 18));
    assert(lucas_lehmer_iterate_term(m, 18) == 6497974 && lucas_lehmer_zero_free(m, 19));
    assert(lucas_lehmer_iterate_term(m, 19) == 11648221 && lucas_lehmer_zero_free(m, 20));
    assert(lucas_lehmer_iterate_term(m, 20) == 19728929 && lucas_lehmer_zero_free(m, 21));
    assert(lucas_lehmer_iterate_term(m, 21) == 11638952 && lucas_lehmer_zero_free(m, 22));
    assert(lucas_lehmer_iterate_term(m, 22) == 26577015 && lucas_lehmer_zero_free(m, 23));
    assert(lucas_lehmer_iterate_term(m, 23) == 8772568);
}

/// The walk modulo `2^27 - 1`.
proof fn lemma_walk_27()
    ensures
        lucas_lehmer_zero_free(mersenne(27), 25),
        lucas_lehmer_iterate_term(mersenne(27), 25) == 60611448,
{
    lemma2_to64();
    let m: int = 134217727;
    assert(mersenne(27) == m);
    assert(lucas_lehmer_zero_free(m, 0));
    assert(lucas_lehmer_iterate_term(m, 0) == 4 && lucas_lehmer_zero_free(m, 1));
    assert(lucas_lehmer_iterate_term(m, 1) == 14 && lucas_lehmer_zero_free(m, 2));
    assert(lucas_lehmer_iterate_term(m, 2) == 194 && lucas_lehmer_zero_free(m, 3));
    assert(lucas_lehmer_iterate_term(m, 3) == 37634 && lucas_lehmer_zero_free(m, 4));
    assert(lucas_lehmer_iterate_term(m, 4) == 74140684 && lucas_lehmer_zero_free(m, 5));
    assert(lucas_lehmer_iterate_term(m, 5) == 51383215 && lucas_lehmer_zero_free(m, 6));
    assert(lucas_lehmer_iterate_term(m, 6) == 26520209 && lucas_lehmer_zero_free(m, 7));
    assert(lucas_lehmer_iterate_term(m, 7) == 60611448 && lucas_lehmer_zero_free(m, 8));
    assert(lucas_lehmer_iterate_term(m, 8) == 536671 && lucas_lehmer_zero_free(m, 9));
    assert(lucas_lehmer_iterate_term(m, 9) == 118737824 && lucas_lehmer_zero_free(m, 10));
    assert(lucas_lehmer_iterate_term(m, 10) == 33159506 && lucas_lehmer_zero_free(m, 11));
    assert(lucas_lehmer_iterate_term(m, 11) == 13737845 && lucas_lehmer_zero_free(m, 12));
    assert(lucas_lehmer_iterate_term(m, 12) == 7471151 && lucas_lehmer_zero_free(m, 13));
    assert(lucas_lehmer_iterate_term(m, 13) == 31613220 && lucas_lehmer_zero_free(m, 14));
    assert(lucas_lehmer_iterate_term(m, 14) == 14543692 && lucas_lehmer_zero_free(m, 15));
    assert(lucas_lehmer_iterate_term(m, 15) == 26520209 && lucas_lehmer_zero_free(m, 16));
    assert(lucas_lehmer_iterate_term(m, 16) == 60611448 && lucas_lehmer_zero_free(m, 17));
    assert(lucas_lehmer_iterate_term(m, 17) == 536671 && lucas_lehmer_zero_free(m, 18));
    assert(lucas_lehmer_iterate_term(m, 18) == 118737824 && lucas_lehmer_zero_free(m, 19));
    assert(lucas_lehmer_iterate_term(m, 19) == 33159506 && lucas_lehmer_zero_free(m, 20));
    assert(lucas_lehmer_iterate_term(m, 20) == 13737845 && lucas_lehmer_zero_free(m, 21));
    assert(lucas_lehmer_iterate_term(m, 21) == 7471151 && lucas_lehmer_zero_free(m, 22));
    assert(lucas_lehmer_iterate_term(m, 22) == 31613220 && lucas_lehmer_zero_free(m, 23));
    assert(lucas_lehmer_iterate_term(m, 23) == 14543692 && lucas_lehmer_zero_free(m, 24));
    assert(lucas_lehmer_iterate_term(m, 24) == 26520209 && lucas_lehmer_zero_free(m, 25));
    assert(lucas_lehmer_iterate_term(m, 25) == 60611448);
}

/// The walk modulo `2^29 - 1`.
proof fn lemma_walk_29()
    ensures
        lucas_lehmer_zero_free(mersenne(29), 27),
        lucas_lehmer_iterate_term(mersenne(29), 27) == 458738443,
{
    lemma2_to64();
    let m: int = 536870911;
    assert(mersenne(29) == m);
    assert(lucas_lehmer_zero_free(m, 0));
    assert(lucas_lehmer_iterate_term(m, 0) == 4 && lucas_lehmer_zero_free(m, 1));
    assert(lucas_lehmer_iterate_term(m, 1) == 14 && lucas_lehmer_zero_free(m, 2));
    assert(lucas_lehmer_iterate_term(m, 2) == 194 && lucas_lehmer_zero_free(m, 3));
    assert(lucas_lehmer_iterate_term(m, 3) == 37634 && lucas_lehmer_zero_free(m, 4));
    assert(lucas_lehmer_iterate_term(m, 4) == 342576132 && lucas_lehmer_zero_free(m, 5));
    assert(lucas_lehmer_iterate_term(m, 5) == 250734296 && lucas_lehmer_zero_free(m, 6));
    assert(lucas_lehmer_iterate_term(m, 6) == 433300702 && lucas_lehmer_zero_free(m, 7));
    assert(lucas_lehmer_iterate_term(m, 7) == 16341479 && lucas_lehmer_zero_free(m, 8));
    assert(lucas_lehmer_iterate_term(m, 8) == 49808751 && lucas_lehmer_zero_free(m, 9));
    assert(lucas_lehmer_iterate_term(m, 9) == 57936161 && lucas_lehmer_zero_free(m, 10));
    assert(lucas_lehmer_iterate_term(m, 10) == 211467447 && lucas_lehmer_zero_free(m, 11));
    assert(lucas_lehmer_iterate_term(m, 11) == 71320725 && lucas_lehmer_zero_free(m, 12));
    assert(lucas_lehmer_iterate_term(m, 12) == 91230447 && lucas_lehmer_zero_free(m, 13));
    assert(lucas_lehmer_iterate_term(m, 13) == 153832672 && lucas_lehmer_zero_free(m, 14));
    assert(lucas_lehmer_iterate_term(m, 14) == 217471443 && lucas_lehmer_zero_free(m, 15));
    assert(lucas_lehmer_iterate_term(m, 15) == 239636427 && lucas_lehmer_zero_free(m, 16));
    assert(lucas_lehmer_iterate_term(m, 16) == 223645010 && lucas_lehmer_zero_free(m, 17));
    assert(lucas_lehmer_iterate_term(m, 17) == 90243197 && lucas_lehmer_zero_free(m, 18));
    assert(lucas_lehmer_iterate_term(m, 18) == 27374393 && lucas_lehmer_zero_free(m, 19));
    assert(lucas_lehmer_iterate_term(m, 19) == 490737401 && lucas_lehmer_zero_free(m, 20));
    assert(lucas_lehmer_iterate_term(m, 20) == 35441039 && lucas_lehmer_zero_free(m, 21));
    assert(lucas_lehmer_iterate_term(m, 21) == 303927542 && lucas_lehmer_zero_free(m, 22));
    assert(lucas_lehmer_iterate_term(m, 22) == 202574536 && lucas_lehmer_zero_free(m, 23));
    assert(lucas_lehmer_iterate_term(m, 23) == 515018664 && lucas_lehmer_zero_free(m, 24));
    assert(lucas_lehmer_iterate_term(m, 24) == 330289146 && lucas_lehmer_zero_free(m, 25));
    assert(lucas_lehmer_iterate_term(m, 25) == 148819211 && lucas_lehmer_zero_free(m, 26));
    assert(lucas_lehmer_iterate_term(m, 26) == 365171774 && lucas_lehmer_zero_free(m, 27));
    assert(lucas_lehmer_iterate_term(m, 27) == 458738443);
}

/// The walk modulo `2^31 - 1`.
proof fn lemma_walk_31()
    ensures
        lucas_lehmer_zero_free(mersenne(31), 29),
        lucas_lehmer_iterate_term(mersenne(31), 29) == 0,
{
    lemma2_to64();
    let m: int = 2147483647;
    assert(mersenne(31) == m);
    assert(lucas_lehmer_zero_free(m, 0));
    assert(lucas_lehmer_iterate_term(m, 0) == 4 && lucas_lehmer_zero_free(m, 1));
    assert(lucas_lehmer_iterate_term(m, 1) == 14 && lucas_lehmer_zero_free(m, 2));
    assert(lucas_lehmer_iterate_term(m, 2) == 194 && lucas_lehmer_zero_free(m, 3));
    assert(lucas_lehmer_iterate_term(m, 3) == 37634 && lucas_lehmer_zero_free(m, 4));
    assert(lucas_lehmer_iterate_term(m, 4) == 1416317954 && lucas_lehmer_zero_free(m, 5));
    assert(lucas_lehmer_iterate_term(m, 5) == 669670838 && lucas_lehmer_zero_free(m, 6));
    assert(lucas_lehmer_iterate_term(m, 6) == 1937259419 && lucas_lehmer_zero_free(m, 7));
    assert(lucas_lehmer_iterate_term(m, 7) == 425413602 && lucas_lehmer_zero_free(m, 8));
    assert(lucas_lehmer_iterate_term(m, 8) == 842014276 && lucas_lehmer_zero_free(m, 9));
    assert(lucas_lehmer_iterate_term(m, 9) == 12692426 && lucas_lehmer_zero_free(m, 10));
    assert(lucas_lehmer_iterate_term(m, 10) == 2044502122 && lucas_lehmer_zero_free(m, 11));
    assert(lucas_lehmer_iterate_term(m, 11) == 1119438707 && lucas_lehmer_zero_free(m, 12));
    assert(lucas_lehmer_iterate_term(m, 12) == 1190075270 && lucas_lehmer_zero_free(m, 13));
    assert(lucas_lehmer_iterate_term(m, 13) == 1450757861 && lucas_lehmer_zero_free(m, 14));
    assert(lucas_lehmer_iterate_term(m, 14) == 877666528 && lucas_lehmer_zero_free(m, 15));
    assert(lucas_lehmer_iterate_term(m, 15) == 630853853 && lucas_lehmer_zero_free(m, 16));
    assert(lucas_lehmer_iterate_term(m, 16) == 940321271 && lucas_lehmer_zero_free(m, 17));
    assert(lucas_lehmer_iterate_term(m, 17) == 512995887 && lucas_lehmer_zero_free(m, 18));
    assert(lucas_lehmer_iterate_term(m, 18) == 692931217 && lucas_lehmer_zero_free(m, 19));
    assert(lucas_lehmer_iterate_term(m, 19) == 1883625615 && lucas_lehmer_zero_free(m, 20));
    assert(lucas_lehmer_iterate_term(m, 20) == 1992425718 && lucas_lehmer_zero_free(m, 21));
    assert(lucas_lehmer_iterate_term(m, 21) == 721929267 && lucas_lehmer_zero_free(m, 22));
    assert(lucas_lehmer_iterate_term(m, 22) == 27220594 && lucas_lehmer_zero_free(m, 23));
    assert(lucas_lehmer_iterate_term(m, 23) == 1570086542 && lucas_lehmer_zero_free(m, 24));
    assert(lucas_lehmer_iterate_term(m, 24) == 1676390412 && lucas_lehmer_zero_free(m, 25));
    assert(lucas_lehmer_iterate_term(m, 25) == 1159251674 && lucas_lehmer_zero_free(m, 26));
    assert(lucas_lehmer_iterate_term(m, 26) == 211987665 && lucas_lehmer_zero_free(m, 27));
    assert(lucas_lehmer_iterate_term(m, 27) == 1181536708 && lucas_lehmer_zero_free(m, 28));
    assert(lucas_lehmer_iterate_term(m, 28) == 65536 && lucas_lehmer_zero_free(m, 29));
    assert(lucas_lehmer_iterate_term(m, 29) == 0);
}

/// The walk modulo `2^33 - 1`.
proof fn lemma_walk_33()
    ensures
        lucas_lehmer_zero_free(mersenne(33), 31),
        lucas_lehmer_iterate_term(mersenne(33), 31) == 5238898821,
{
    lemma2_to64();
    lemma2_to64_rest();
    let m: int = 8589934591;
    assert(mersenne(33) == m);
    assert(lucas_lehmer_zero_free(m, 0));
    assert(lucas_lehmer_iterate_term(m, 0) == 4 && lucas_lehmer_zero_free(m, 1));
    assert(lucas_lehmer_iterate_term(m, 1) == 14 && lucas_lehmer_zero_free(m, 2));
    assert(lucas_lehmer_iterate_term(m, 2) == 194 && lucas_lehmer_zero_free(m, 3));
    assert(lucas_lehmer_iterate_term(m, 3) == 37634 && lucas_lehmer_zero_free(m, 4));
    assert(lucas_lehmer_iterate_term(m, 4) == 1416317954 && lucas_lehmer_zero_free(m, 5));
    assert(lucas_lehmer_iterate_term(m, 5) == 8559033198 && lucas_lehmer_zero_free(m, 6));
    assert(lucas_lehmer_iterate_term(m, 6) == 4600466523 && lucas_lehmer_zero_free(m, 7));
    assert(lucas_lehmer_iterate_term(m, 7) == 3380411946 && lucas_lehmer_zero_free(m, 8));
    assert(lucas_lehmer_iterate_term(m, 8) == 6313615604 && lucas_lehmer_zero_free(m, 9));
    assert(lucas_lehmer_iterate_term(m, 9) == 4112946721 && lucas_lehmer_zero_free(m, 10));
    assert(lucas_lehmer_iterate_term(m, 10) == 2302157013 && lucas_lehmer_zero_free(m, 11));
    assert(lucas_lehmer_iterate_term(m, 11) == 2150400240 && lucas_lehmer_zero_free(m, 12));
    assert(lucas_lehmer_iterate_term(m, 12) == 3011978580 && lucas_lehmer_zero_free(m, 13));
    assert(lucas_lehmer_iterate_term(m, 13) == 452757076 && lucas_lehmer_zero_free(m, 14));
    assert(lucas_lehmer_iterate_term(m, 14) == 7739026878 && lucas_lehmer_zero_free(m, 15));
    assert(lucas_lehmer_iterate_term(m, 15) == 7224876430 && lucas_lehmer_zero_free(m, 16));
    assert(lucas_lehmer_iterate_term(m, 16) == 6873038517 && lucas_lehmer_zero_free(m, 17));
    assert(lucas_lehmer_iterate_term(m, 17) == 4186497730 && lucas_lehmer_zero_free(m, 18));
    assert(lucas_lehmer_iterate_term(m, 18) == 6788015145 && lucas_lehmer_zero_free(m, 19));
    assert(lucas_lehmer_iterate_term(m, 19) == 1673692232 && lucas_lehmer_zero_free(m, 20));
    assert(lucas_lehmer_iterate_term(m, 20) == 2229950284 && lucas_lehmer_zero_free(m, 21));
    assert(lucas_lehmer_iterate_term(m, 21) == 926285523 && lucas_lehmer_zero_free(m, 22));
    assert(lucas_lehmer_iterate_term(m, 22) == 821657944 && lucas_lehmer_zero_free(m, 23));
    assert(lucas_lehmer_iterate_term(m, 23) == 8107134996 && lucas_lehmer_zero_free(m, 24));
    assert(lucas_lehmer_iterate_term(m, 24) == 6073004352 && lucas_lehmer_zero_free(m, 25));
    assert(lucas_lehmer_iterate_term(m, 25) == 732171953 && lucas_lehmer_zero_free(m, 26));
    assert(lucas_lehmer_iterate_term(m, 26) == 1297619304 && lucas_lehmer_zero_free(m, 27));
    assert(lucas_lehmer_iterate_term(m, 27) == 364153099 && lucas_lehmer_zero_free(m, 28));
    assert(lucas_lehmer_iterate_term(m, 28) == 3485488477 && lucas_lehmer_zero_free(m, 29));
    assert(lucas_lehmer_iterate_term(m, 29) == 3796054285 && lucas_lehmer_zero_free(m, 30));
    assert(lucas_lehmer_iterate_term(m, 30) == 238113990 && lucas_lehmer_zero_free(m, 31));
    assert(lucas_lehmer_iterate_term(m, 31) == 5238898821);
}

/// The walk modulo `2^35 - 1`.
proof fn lemma_walk_35()
    ensures
        lucas_lehmer_zero_free(mersenne(35), 33),
        lucas_lehmer_iterate_term(mersenne(35), 33) == 11960838285,
{
    lemma2_to64();
    lemma2_to64_rest();
    let m: int = 34359738367;
    assert(mersenne(35) == m);
    assert(lucas_lehmer_zero_free(m, 0));
    assert(lucas_lehmer_iterate_term(m, 0) == 4 && lucas_lehmer_zero_free(m, 1));
    assert(lucas_lehmer_iterate_term(m, 1) == 14 && lucas_lehmer_zero_free(m, 2));
    assert(lucas_lehmer_iterate_term(m, 2) == 194 && lucas_lehmer_zero_free(m, 3));
    assert(lucas_lehmer_iterate_term(m, 3) == 37634 && lucas_lehmer_zero_free(m, 4));
    assert(lucas_lehmer_iterate_term(m, 4) == 1416317954 && lucas_lehmer_zero_free(m, 5));
    assert(lucas_lehmer_iterate_term(m, 5) == 8383890141 && lucas_lehmer_zero_free(m, 6));
    assert(lucas_lehmer_iterate_term(m, 6) == 26401509044 && lucas_lehmer_zero_free(m, 7));
    assert(lucas_lehmer_iterate_term(m, 7) == 4040948613 && lucas_lehmer_zero_free(m, 8));
    assert(lucas_lehmer_iterate_term(m, 8) == 7667169707 && lucas_lehmer_zero_free(m, 9));
    assert(lucas_lehmer_iterate_term(m, 9) == 21463079123 && lucas_lehmer_zero_free(m, 10));
    assert(lucas_lehmer_iterate_term(m, 10) == 11033316518 && lucas_lehmer_zero_free(m, 11));
    assert(lucas_lehmer_iterate_term(m, 11) == 25689113978 && lucas_lehmer_zero_free(m, 12));
    assert(lucas_lehmer_iterate_term(m, 12) == 1524697740 && lucas_lehmer_zero_free(m, 13));
    assert(lucas_lehmer_iterate_term(m, 13) == 25745661109 && lucas_lehmer_zero_free(m, 14));
    assert(lucas_lehmer_iterate_term(m, 14) == 26239223114 && lucas_lehmer_zero_free(m, 15));
    assert(lucas_lehmer_iterate_term(m, 15) == 854391994 && lucas_lehmer_zero_free(m, 16));
    assert(lucas_lehmer_iterate_term(m, 16) == 15463539941 && lucas_lehmer_zero_free(m, 17));
    assert(lucas_lehmer_iterate_term(m, 17) == 19124701910 && lucas_lehmer_zero_free(m, 18));
    assert(lucas_lehmer_iterate_term(m, 18) == 20469640165 && lucas_lehmer_zero_free(m, 19));
    assert(lucas_lehmer_iterate_term(m, 19) == 8787876127 && lucas_lehmer_zero_free(m, 20));
    assert(lucas_lehmer_iterate_term(m, 20) == 14367990951 && lucas_lehmer_zero_free(m, 21));
    assert(lucas_lehmer_iterate_term(m, 21) == 31951211690 && lucas_lehmer_zero_free(m, 22));
    assert(lucas_lehmer_iterate_term(m, 22) == 14551163813 && lucas_lehmer_zero_free(m, 23));
    assert(lucas_lehmer_iterate_term(m, 23) == 2695782012 && lucas_lehmer_zero_free(m, 24));
    assert(lucas_lehmer_iterate_term(m, 24) == 32749820329 && lucas_lehmer_zero_free(m, 25));
    assert(lucas_lehmer_iterate_term(m, 25) == 3791890056 && lucas_lehmer_zero_free(m, 26));
    assert(lucas_lehmer_iterate_term(m, 26) == 23831377536 && lucas_lehmer_zero_free(m, 27));
    assert(lucas_lehmer_iterate_term(m, 27) == 13280205725 && lucas_lehmer_zero_free(m, 28));
    assert(lucas_lehmer_iterate_term(m, 28) == 19289425990 && lucas_lehmer_zero_free(m, 29));
    assert(lucas_lehmer_iterate_term(m, 29) == 11496130553 && lucas_lehmer_zero_free(m, 30));
    assert(lucas_lehmer_iterate_term(m, 30) == 34299238490 && lucas_lehmer_zero_free(m, 31));
    assert(lucas_lehmer_iterate_term(m, 31) == 29627732085 && lucas_lehmer_zero_free(m, 32));
    assert(lucas_lehmer_iterate_term(m, 32) == 21947086029 && lucas_lehmer_zero_free(m, 33));
    assert(lucas_lehmer_iterate_term(m, 33) == 11960838285);
}

/// The walk modulo `2^37 - 1`.
proof fn lemma_walk_37()
    ensures
        lucas_lehmer_zero_free(mersenne(37), 35),
        lucas_lehmer_iterate_term(mersenne(37), 35) == 117093979072,
{
    lemma2_to64();
    lemma2_to64_rest();
    let m: int = 137438953471;
    assert(mersenne(37) == m);
    assert(lucas_lehmer_zero_free(m, 0));
    assert(lucas_lehmer_iterate_term(m, 0) == 4 && lucas_lehmer_zero_free(m, 1));
    assert(lucas_lehmer_iterate_term(m, 1) == 14 && lucas_lehmer_zero_free(m, 2));
    assert(lucas_lehmer_iterate_term(m, 2) == 194 && lucas_lehmer_zero_free(m, 3));
    assert(lucas_lehmer_iterate_term(m, 3) == 37634 && lucas_lehmer_zero_free(m, 4));
    assert(lucas_lehmer_iterate_term(m, 4) == 1416317954 && lucas_lehmer_zero_free(m, 5));
    assert(lucas_lehmer_iterate_term(m, 5) == 111419319480 && lucas_lehmer_zero_free(m, 6));
    assert(lucas_lehmer_iterate_term(m, 6) == 75212031451 && lucas_lehmer_zero_free(m, 7));
    assert(lucas_lehmer_iterate_term(m, 7) == 42117743384 && lucas_lehmer_zero_free(m, 8));
    assert(lucas_lehmer_iterate_term(m, 8) == 134212256520 && lucas_lehmer_zero_free(m, 9));
    assert(lucas_lehmer_iterate_term(m, 9) == 54923239684 && lucas_lehmer_zero_free(m, 10));
    assert(lucas_lehmer_iterate_term(m, 10) == 61369726979 && lucas_lehmer_zero_free(m, 11));
    assert(lucas_lehmer_iterate_term(m, 11) == 100682126153 && lucas_lehmer_zero_free(m, 12));
    assert(lucas_lehmer_iterate_term(m, 12) == 46790825955 && lucas_lehmer_zero_free(m, 13));
    assert(lucas_lehmer_iterate_term(m, 13) == 120336432403 && lucas_lehmer_zero_free(m, 14));
    assert(lucas_lehmer_iterate_term(m, 14) == 15532303443 && lucas_lehmer_zero_free(m, 15));
    assert(lucas_lehmer_iterate_term(m, 15) == 43487582705 && lucas_lehmer_zero_free(m, 16));
    assert(lucas_lehmer_iterate_term(m, 16) == 63215664337 && lucas_lehmer_zero_free(m, 17));
    assert(lucas_lehmer_iterate_term(m, 17) == 24881968247 && lucas_lehmer_zero_free(m, 18));
    assert(lucas_lehmer_iterate_term(m, 18) == 36378170995 && lucas_lehmer_zero_free(m, 19));
    assert(lucas_lehmer_iterate_term(m, 19) == 23347868395 && lucas_lehmer_zero_free(m, 20));
    assert(lucas_lehmer_iterate_term(m, 20) == 34319987212 && lucas_lehmer_zero_free(m, 21));
    assert(lucas_lehmer_iterate_term(m, 21) == 27325339261 && lucas_lehmer_zero_free(m, 22));
    assert(lucas_lehmer_iterate_term(m, 22) == 67024860468 && lucas_lehmer_zero_free(m, 23));
    assert(lucas_lehmer_iterate_term(m, 23) == 67821607698 && lucas_lehmer_zero_free(m, 24));
    assert(lucas_lehmer_iterate_term(m, 24) == 45433743622 && lucas_lehmer_zero_free(m, 25));
    assert(lucas_lehmer_iterate_term(m, 25) == 32514699513 && lucas_lehmer_zero_free(m, 26));
    assert(lucas_lehmer_iterate_term(m, 26) == 51489094388 && lucas_lehmer_zero_free(m, 27));
    assert(lucas_lehmer_iterate_term(m, 27) == 44855569738 && lucas_lehmer_zero_free(m, 28));
    assert(lucas_lehmer_iterate_term(m, 28) == 31479590378 && lucas_lehmer_zero_free(m, 29));
    assert(lucas_lehmer_iterate_term(m, 29) == 32455804440 && lucas_lehmer_zero_free(m, 30));
    assert(lucas_lehmer_iterate_term(m, 30) == 54840899833 && lucas_lehmer_zero_free(m, 31));
    assert(lucas_lehmer_iterate_term(m, 31) == 71222372297 && lucas_lehmer_zero_free(m, 32));
    assert(lucas_lehmer_iterate_term(m, 32) == 35230286592 && lucas_lehmer_zero_free(m, 33));
    assert(lucas_lehmer_iterate_term(m, 33) == 24416019713 && lucas_lehmer_zero_free(m, 34));
    assert(lucas_lehmer_iterate_term(m, 34) == 80429963578 && lucas_lehmer_zero_free(m, 35));
    assert(lucas_lehmer_iterate_term(m, 35) == 117093979072);
}

/// The walk modulo `2^39 - 1`.
proof fn lemma_walk_39()
    ensures
        lucas_lehmer_zero_free(mersenne(39), 37),
        lucas_lehmer_iterate_term(mersenne(39), 37) == 276971366821,
{
    lemma2_to64();
    lemma2_to64_rest();
    let m: int = 549755813887;
    assert(mersenne(39) == m);
    assert(lucas_lehmer_zero_free(m, 0));
    assert(lucas_lehmer_iterate_term(m, 0) == 4 && lucas_lehmer_zero_free(m, 1));
    assert(lucas_lehmer_iterate_term(m, 1) == 14 && lucas_lehmer_zero_free(m, 2));
    assert(lucas_lehmer_iterate_term(m, 2) == 194 && lucas_lehmer_zero_free(m, 3));
    assert(lucas_lehmer_iterate_term(m, 3) == 37634 && lucas_lehmer_zero_free(m, 4));
    assert(lucas_lehmer_iterate_term(m, 4) == 1416317954 && lucas_lehmer_zero_free(m, 5));
    assert(lucas_lehmer_iterate_term(m, 5) == 386286279983 && lucas_lehmer_zero_free(m, 6));
    assert(lucas_lehmer_iterate_term(m, 6) == 543377877212 && lucas_lehmer_zero_free(m, 7));
    assert(lucas_lehmer_iterate_term(m, 7) == 340683217380 && lucas_lehmer_zero_free(m, 8));
    assert(lucas_lehmer_iterate_term(m, 8) == 405514008909 && lucas_lehmer_zero_free(m, 9));
    assert(lucas_lehmer_iterate_term(m, 9) == 90300478893 && lucas_lehmer_zero_free(m, 10));
    assert(lucas_lehmer_iterate_term(m, 10) == 493015692185 && lucas_lehmer_zero_free(m, 11));
    assert(lucas_lehmer_iterate_term(m, 11) == 283542891445 && lucas_lehmer_zero_free(m, 12));
    assert(lucas_lehmer_iterate_term(m, 12) == 197789575951 && lucas_lehmer_zero_free(m, 13));
    assert(lucas_lehmer_iterate_term(m, 13) == 424791083803 && lucas_lehmer_zero_free(m, 14));
    assert(lucas_lehmer_iterate_term(m, 14) == 193202984550 && lucas_lehmer_zero_free(m, 15));
    assert(lucas_lehmer_iterate_term(m, 15) == 496893622717 && lucas_lehmer_zero_free(m, 16));
    assert(lucas_lehmer_iterate_term(m, 16) == 295563405104 && lucas_lehmer_zero_free(m, 17));
    assert(lucas_lehmer_iterate_term(m, 17) == 248330560592 && lucas_lehmer_zero_free(m, 18));
    assert(lucas_lehmer_iterate_term(m, 18) == 328697597349 && lucas_lehmer_zero_free(m, 19));
    assert(lucas_lehmer_iterate_term(m, 19) == 30052557845 && lucas_lehmer_zero_free(m, 20));
    assert(lucas_lehmer_iterate_term(m, 20) == 343939778744 && lucas_lehmer_zero_free(m, 21));
    assert(lucas_lehmer_iterate_term(m, 21) == 267228147748 && lucas_lehmer_zero_free(m, 22));
    assert(lucas_lehmer_iterate_term(m, 22) == 3257773668 && lucas_lehmer_zero_free(m, 23));
    assert(lucas_lehmer_iterate_term(m, 23) == 508267506070 && lucas_lehmer_zero_free(m, 24));
    assert(lucas_lehmer_iterate_term(m, 24) == 275945607891 && lucas_lehmer_zero_free(m, 25));
    assert(lucas_lehmer_iterate_term(m, 25) == 250183176399 && lucas_lehmer_zero_free(m, 26));
    assert(lucas_lehmer_iterate_term(m, 26) == 458421470446 && lucas_lehmer_zero_free(m, 27));
    assert(lucas_lehmer_iterate_term(m, 27) == 323395472948 && lucas_lehmer_zero_free(m, 28));
    assert(lucas_lehmer_iterate_term(m, 28) == 275306931048 && lucas_lehmer_zero_free(m, 29));
    assert(lucas_lehmer_iterate_term(m, 29) == 274656729468 && lucas_lehmer_zero_free(m, 30));
    assert(lucas_lehmer_iterate_term(m, 30) == 141764585762 && lucas_lehmer_zero_free(m, 31));
    assert(lucas_lehmer_iterate_term(m, 31) == 38273823590 && lucas_lehmer_zero_free(m, 32));
    assert(lucas_lehmer_iterate_term(m, 32) == 132501506727 && lucas_lehmer_zero_free(m, 33));
    assert(lucas_lehmer_iterate_term(m, 33) == 59381866770 && lucas_lehmer_zero_free(m, 34));
    assert(lucas_lehmer_iterate_term(m, 34) == 337100048014 && lucas_lehmer_zero_free(m, 35));
    assert(lucas_lehmer_iterate_term(m, 35) == 521797489971 && lucas_lehmer_zero_free(m, 36));
    assert(lucas_lehmer_iterate_term(m, 36) == 488176563933 && lucas_lehmer_zero_free(m, 37));
    assert(lucas_lehmer_iterate_term(m, 37) == 276971366821);
}

/// The walk modulo `2^41 - 1`.
proof fn lemma_walk_41()
    ensures
        lucas_lehmer_zero_free(mersenne(41), 39),
        lucas_lehmer_iterate_term(mersenne(41), 39) == 856605019673,
{
    lemma2_to64();
    lemma2_to64_rest();
    let m: int = 2199023255551;
    assert(mersenne(41) == m);
    assert(lucas_lehmer_zero_free(m, 0));
    assert(lucas_lehmer_iterate_term(m, 0) == 4 && lucas_lehmer_zero_free(m, 1));
    assert(lucas_lehmer_iterate_term(m, 1) == 14 && lucas_lehmer_zero_free(m, 2));
    assert(lucas_lehmer_iterate_term(m, 2) == 194 && lucas_lehmer_zero_free(m, 3));
    assert(lucas_lehmer_iterate_term(m, 3) == 37634 && lucas_lehmer_zero_free(m, 4));
    assert(lucas_lehmer_iterate_term(m, 4) == 1416317954 && lucas_lehmer_zero_free(m, 5));
    assert(lucas_lehmer_iterate_term(m, 5) == 936039357261 && lucas_lehmer_zero_free(m, 6));
    assert(lucas_lehmer_iterate_term(m, 6) == 138087482816 && lucas_lehmer_zero_free(m, 7));
    assert(lucas_lehmer_iterate_term(m, 7) == 732796875732 && lucas_lehmer_zero_free(m, 8));
    assert(lucas_lehmer_iterate_term(m, 8) == 1310689168096 && lucas_lehmer_zero_free(m, 9));
    assert(lucas_lehmer_iterate_term(m, 9) == 2039757563376 && lucas_lehmer_zero_free(m, 10));
    assert(lucas_lehmer_iterate_term(m, 10) == 1958864550940 && lucas_lehmer_zero_free(m, 11));
    assert(lucas_lehmer_iterate_term(m, 11) == 1204974397864 && lucas_lehmer_zero_free(m, 12));
    assert(lucas_lehmer_iterate_term(m, 12) == 1760902154209 && lucas_lehmer_zero_free(m, 13));
    assert(lucas_lehmer_iterate_term(m, 13) == 627974964089 && lucas_lehmer_zero_free(m, 14));
    assert(lucas_lehmer_iterate_term(m, 14) == 621098408530 && lucas_lehmer_zero_free(m, 15));
    assert(lucas_lehmer_iterate_term(m, 15) == 2033435076537 && lucas_lehmer_zero_free(m, 16));
    assert(lucas_lehmer_iterate_term(m, 16) == 1756790903255 && lucas_lehmer_zero_free(m, 17));
    assert(lucas_lehmer_iterate_term(m, 17) == 1869608785509 && lucas_lehmer_zero_free(m, 18));
    assert(lucas_lehmer_iterate_term(m, 18) == 813059806403 && lucas_lehmer_zero_free(m, 19));
    assert(lucas_lehmer_iterate_term(m, 19) == 2133168725211 && lucas_lehmer_zero_free(m, 20));
    assert(lucas_lehmer_iterate_term(m, 20) == 330659108721 && lucas_lehmer_zero_free(m, 21));
    assert(lucas_lehmer_iterate_term(m, 21) == 973542231931 && lucas_lehmer_zero_free(m, 22));
    assert(lucas_lehmer_iterate_term(m, 22) == 1918555165622 && lucas_lehmer_zero_free(m, 23));
    assert(lucas_lehmer_iterate_term(m, 23) == 629498535754 && lucas_lehmer_zero_free(m, 24));
    assert(lucas_lehmer_iterate_term(m, 24) == 943274618761 && lucas_lehmer_zero_free(m, 25));
    assert(lucas_lehmer_iterate_term(m, 25) == 388990169753 && lucas_lehmer_zero_free(m, 26));
    assert(lucas_lehmer_iterate_term(m, 26) == 1261413657457 && lucas_lehmer_zero_free(m, 27));
    assert(lucas_lehmer_iterate_term(m, 27) == 2198852974452 && lucas_lehmer_zero_free(m, 28));
    assert(lucas_lehmer_iterate_term(m, 28) == 1531052207864 && lucas_lehmer_zero_free(m, 29));
    assert(lucas_lehmer_iterate_term(m, 29) == 1658528204794 && lucas_lehmer_zero_free(m, 30));
    assert(lucas_lehmer_iterate_term(m, 30) == 1757157311370 && lucas_lehmer_zero_free(m, 31));
    assert(lucas_lehmer_iterate_term(m, 31) == 1370256634670 && lucas_lehmer_zero_free(m, 32));
    assert(lucas_lehmer_iterate_term(m, 32) == 17648194033 && lucas_lehmer_zero_free(m, 33));
    assert(lucas_lehmer_iterate_term(m, 33) == 1467474186945 && lucas_lehmer_zero_free(m, 34));
    assert(lucas_lehmer_iterate_term(m, 34) == 2185108805956 && lucas_lehmer_zero_free(m, 35));
    assert(lucas_lehmer_iterate_term(m, 35) == 110389133421 && lucas_lehmer_zero_free(m, 36));
    assert(lucas_lehmer_iterate_term(m, 36) == 174248223207 && lucas_lehmer_zero_free(m, 37));
    assert(lucas_lehmer_iterate_term(m, 37) == 2059341505595 && lucas_lehmer_zero_free(m, 38));
    assert(lucas_lehmer_iterate_term(m, 38) == 1222323839191 && lucas_lehmer_zero_free(m, 39));
    assert(lucas_lehmer_iterate_term(m, 39) == 856605019673);
}

/// The walk modulo `2^43 - 1`.
proof fn lemma_walk_43()
    ensures
        lucas_lehmer_zero_free(mersenne(43), 41),
        lucas_lehmer_iterate_term(mersenne(43), 41) == 5774401272921,
{
    lemma2_to64();
    lemma2_to64_rest();
    let m: int = 8796093022207;
    assert(mersenne(43) == m);
    assert(lucas_lehmer_zero_free(m, 0));
    assert(lucas_lehmer_iterate_term(m, 0) == 4 && lucas_lehmer_zero_free(m, 1));
    assert(lucas_lehmer_iterate_term(m, 1) == 14 && lucas_lehmer_zero_free(m, 2));
    assert(lucas_lehmer_iterate_term(m, 2) == 194 && lucas_lehmer_zero_free(m, 3));
    assert(lucas_lehmer_iterate_term(m, 3) == 37634 && lucas_lehmer_zero_free(m, 4));
    assert(lucas_lehmer_iterate_term(m, 4) == 1416317954 && lucas_lehmer_zero_free(m, 5));
    assert(lucas_lehmer_iterate_term(m, 5) == 7533108439764 && lucas_lehmer_zero_free(m, 6));
    assert(lucas_lehmer_iterate_term(m, 6) == 2102210667306 && lucas_lehmer_zero_free(m, 7));
    assert(lucas_lehmer_iterate_term(m, 7) == 6918869226827 && lucas_lehmer_zero_free(m, 8));
    assert(lucas_lehmer_iterate_term(m, 8) == 5175535050322 && lucas_lehmer_zero_free(m, 9));
    assert(lucas_lehmer_iterate_term(m, 9) == 8206606087476 && lucas_lehmer_zero_free(m, 10));
    assert(lucas_lehmer_iterate_term(m, 10) == 1325849670822 && lucas_lehmer_zero_free(m, 11));
    assert(lucas_lehmer_iterate_term(m, 11) == 5632808580822 && lucas_lehmer_zero_free(m, 12));
    assert(lucas_lehmer_iterate_term(m, 12) == 973525364261 && lucas_lehmer_zero_free(m, 13));
    assert(lucas_lehmer_iterate_term(m, 13) == 5998615745535 && lucas_lehmer_zero_free(m, 14));
    assert(lucas_lehmer_iterate_term(m, 14) == 1115110782947 && lucas_lehmer_zero_free(m, 15));
    assert(lucas_lehmer_iterate_term(m, 15) == 368544808728 && lucas_lehmer_zero_free(m, 16));
    assert(lucas_lehmer_iterate_term(m, 16) == 6118995402177 && lucas_lehmer_zero_free(m, 17));
    assert(lucas_lehmer_iterate_term(m, 17) == 5055245671678 && lucas_lehmer_zero_free(m, 18));
    assert(lucas_lehmer_iterate_term(m, 18) == 1099682060997 && lucas_lehmer_zero_free(m, 19));
    assert(lucas_lehmer_iterate_term(m, 19) == 5120165924654 && lucas_lehmer_zero_free(m, 20));
    assert(lucas_lehmer_iterate_term(m, 20) == 6383299852581 && lucas_lehmer_zero_free(m, 21));
    assert(lucas_lehmer_iterate_term(m, 21) == 5389865622924 && lucas_lehmer_zero_free(m, 22));
    assert(lucas_lehmer_iterate_term(m, 22) == 2688421203237 && lucas_lehmer_zero_free(m, 23));
    assert(lucas_lehmer_iterate_term(m, 23) == 8098324613254 && lucas_lehmer_zero_free(m, 24));
    assert(lucas_lehmer_iterate_term(m, 24) == 8630186160093 && lucas_lehmer_zero_free(m, 25));
    assert(lucas_lehmer_iterate_term(m, 25) == 2442682936985 && lucas_lehmer_zero_free(m, 26));
    assert(lucas_lehmer_iterate_term(m, 26) == 519092357387 && lucas_lehmer_zero_free(m, 27));
    assert(lucas_lehmer_iterate_term(m, 27) == 5911194857828 && lucas_lehmer_zero_free(m, 28));
    assert(lucas_lehmer_iterate_term(m, 28) == 2776822895882 && lucas_lehmer_zero_free(m, 29));
    assert(lucas_lehmer_iterate_term(m, 29) == 7967266878014 && lucas_lehmer_zero_free(m, 30));
    assert(lucas_lehmer_iterate_term(m, 30) == 715596285842 && lucas_lehmer_zero_free(m, 31));
    assert(lucas_lehmer_iterate_term(m, 31) == 3329077681494 && lucas_lehmer_zero_free(m, 32));
    assert(lucas_lehmer_iterate_term(m, 32) == 4832101757200 && lucas_lehmer_zero_free(m, 33));
    assert(lucas_lehmer_iterate_term(m, 33) == 5372986349133 && lucas_lehmer_zero_free(m, 34));
    assert(lucas_lehmer_iterate_term(m, 34) == 6273032989049 && lucas_lehmer_zero_free(m, 35));
    assert(lucas_lehmer_iterate_term(m, 35) == 5105733756511 && lucas_lehmer_zero_free(m, 36));
    assert(lucas_lehmer_iterate_term(m, 36) == 1200756922668 && lucas_lehmer_zero_free(m, 37));
    assert(lucas_lehmer_iterate_term(m, 37) == 7246990262022 && lucas_lehmer_zero_free(m, 38));
    assert(lucas_lehmer_iterate_term(m, 38) == 1088867464536 && lucas_lehmer_zero_free(m, 39));
    assert(lucas_lehmer_iterate_term(m, 39) == 3100612613655 && lucas_lehmer_zero_free(m, 40));
    assert(lucas_lehmer_iterate_term(m, 40) == 8271814102294 && lucas_lehmer_zero_free(m, 41));
    assert(lucas_lehmer_iterate_term(m, 41) == 5774401272921);
}

/// The walk modulo `2^45 - 1`.
proof fn lemma_walk_45()
    ensures
        lucas_lehmer_zero_free(mersenne(45), 43),
        lucas_lehmer_iterate_term(mersenne(45), 43) == 28245520279076,
{
    lemma2_to64();
    lemma2_to64_rest();
    let m: int = 35184372088831;
    assert(mersenne(45) == m);
    assert(lucas_lehmer_zero_free(m, 0));
    assert(lucas_lehmer_iterate_term(m, 0) == 4 && lucas_lehmer_zero_free(m, 1));
    assert(lucas_lehmer_iterate_term(m, 1) == 14 && lucas_lehmer_zero_free(m, 2));
    assert(lucas_lehmer_iterate_term(m, 2) == 194 && lucas_lehmer_zero_free(m, 3));
    assert(lucas_lehmer_iterate_term(m, 3) == 37634 && lucas_lehmer_zero_free(m, 4));
    assert(lucas_lehmer_iterate_term(m, 4) == 1416317954 && lucas_lehmer_zero_free(m, 5));
    assert(lucas_lehmer_iterate_term(m, 5) == 25125294313142 && lucas_lehmer_zero_free(m, 6));
    assert(lucas_lehmer_iterate_term(m, 6) == 21431209366247 && lucas_lehmer_zero_free(m, 7));
    assert(lucas_lehmer_iterate_term(m, 7) == 59546954378 && lucas_lehmer_zero_free(m, 8));
    assert(lucas_lehmer_iterate_term(m, 8) == 27851685385645 && lucas_lehmer_zero_free(m, 9));
    assert(lucas_lehmer_iterate_term(m, 9) == 31837023213949 && lucas_lehmer_zero_free(m, 10));
    assert(lucas_lehmer_iterate_term(m, 10) == 22828938636751 && lucas_lehmer_zero_free(m, 11));
    assert(lucas_lehmer_iterate_term(m, 11) == 25117843562156 && lucas_lehmer_zero_free(m, 12));
    assert(lucas_lehmer_iterate_term(m, 12) == 9079010058512 && lucas_lehmer_zero_free(m, 13));
    assert(lucas_lehmer_iterate_term(m, 13) == 7374850721317 && lucas_lehmer_zero_free(m, 14));
    assert(lucas_lehmer_iterate_term(m, 14) == 606465646607 && lucas_lehmer_zero_free(m, 15));
    assert(lucas_lehmer_iterate_term(m, 15) == 25185422496810 && lucas_lehmer_zero_free(m, 16));
    assert(lucas_lehmer_iterate_term(m, 16) == 18332203010487 && lucas_lehmer_zero_free(m, 17));
    assert(lucas_lehmer_iterate_term(m, 17) == 19605889626913 && lucas_lehmer_zero_free(m, 18));
    assert(lucas_lehmer_iterate_term(m, 18) == 12750540059910 && lucas_lehmer_zero_free(m, 19));
    assert(lucas_lehmer_iterate_term(m, 19) == 22398066905930 && lucas_lehmer_zero_free(m, 20));
    assert(lucas_lehmer_iterate_term(m, 20) == 3168013229621 && lucas_lehmer_zero_free(m, 21));
    assert(lucas_lehmer_iterate_term(m, 21) == 32734358677939 && lucas_lehmer_zero_free(m, 22));
    assert(lucas_lehmer_iterate_term(m, 22) == 15733586727105 && lucas_lehmer_zero_free(m, 23));
    assert(lucas_lehmer_iterate_term(m, 23) == 33213168434063 && lucas_lehmer_zero_free(m, 24));
    assert(lucas_lehmer_iterate_term(m, 24) == 4113316517788 && lucas_lehmer_zero_free(m, 25));
    assert(lucas_lehmer_iterate_term(m, 25) == 6290764837072 && lucas_lehmer_zero_free(m, 26));
    assert(lucas_lehmer_iterate_term(m, 26) == 15003524327570 && lucas_lehmer_zero_free(m, 27));
    assert(lucas_lehmer_iterate_term(m, 27) == 29055549103401 && lucas_lehmer_zero_free(m, 28));
    assert(lucas_lehmer_iterate_term(m, 28) == 11895339135031 && lucas_lehmer_zero_free(m, 29));
    assert(lucas_lehmer_iterate_term(m, 29) == 34218118305863 && lucas_lehmer_zero_free(m, 30));
    assert(lucas_lehmer_iterate_term(m, 30) == 35138422056516 && lucas_lehmer_zero_free(m, 31));
    assert(lucas_lehmer_iterate_term(m, 31) == 26423073979311 && lucas_lehmer_zero_free(m, 32));
    assert(lucas_lehmer_iterate_term(m, 32) == 11082307438666 && lucas_lehmer_zero_free(m, 33));
    assert(lucas_lehmer_iterate_term(m, 33) == 16189761479488 && lucas_lehmer_zero_free(m, 34));
    assert(lucas_lehmer_iterate_term(m, 34) == 32084527098598 && lucas_lehmer_zero_free(m, 35));
    assert(lucas_lehmer_iterate_term(m, 35) == 9052877421212 && lucas_lehmer_zero_free(m, 36));
    assert(lucas_lehmer_iterate_term(m, 36) == 16503176868404 && lucas_lehmer_zero_free(m, 37));
    assert(lucas_lehmer_iterate_term(m, 37) == 33613727594379 && lucas_lehmer_zero_free(m, 38));
    assert(lucas_lehmer_iterate_term(m, 38) == 18200719868221 && lucas_lehmer_zero_free(m, 39));
    assert(lucas_lehmer_iterate_term(m, 39) == 16553630310835 && lucas_lehmer_zero_free(m, 40));
    assert(lucas_lehmer_iterate_term(m, 40) == 17738144552844 && lucas_lehmer_zero_free(m, 41));
    assert(lucas_lehmer_iterate_term(m, 41) == 2545026048665 && lucas_lehmer_zero_free(m, 42));
    assert(lucas_lehmer_iterate_term(m, 42) == 34273294767182 && lucas_lehmer_zero_free(m, 43));
    assert(lucas_lehmer_iterate_term(m, 43) == 28245520279076);
}

/// The walk modulo `2^47 - 1`.
proof fn lemma_walk_47()
    ensures
        lucas_lehmer_zero_free(mersenne(47), 45),
        lucas_lehmer_iterate_term(mersenne(47), 45) == 96699253829728,
{
    lemma2_to64();
    lemma2_to64_rest();
    let m: int = 140737488355327;
    assert(mersenne(47) == m);
    assert(lucas_lehmer_zero_free(m, 0));
    assert(lucas_lehmer_iterate_term(m, 0) == 4 && lucas_lehmer_zero_free(m, 1));
    assert(lucas_lehmer_iterate_term(m, 1) == 14 && lucas_lehmer_zero_free(m, 2));
    assert(lucas_lehmer_iterate_term(m, 2) == 194 && lucas_lehmer_zero_free(m, 3));
    assert(lucas_lehmer_iterate_term(m, 3) == 37634 && lucas_lehmer_zero_free(m, 4));
    assert(lucas_lehmer_iterate_term(m, 4) == 1416317954 && lucas_lehmer_zero_free(m, 5));
    assert(lucas_lehmer_iterate_term(m, 5) == 25125294270383 && lucas_lehmer_zero_free(m, 6));
    assert(lucas_lehmer_iterate_term(m, 6) == 17476507908189 && lucas_lehmer_zero_free(m, 7));
    assert(lucas_lehmer_iterate_term(m, 7) == 85079018803505 && lucas_lehmer_zero_free(m, 8));
    assert(lucas_lehmer_iterate_term(m, 8) == 47360981023535 && lucas_lehmer_zero_free(m, 9));
    assert(lucas_lehmer_iterate_term(m, 9) == 39046148967560 && lucas_lehmer_zero_free(m, 10));
    assert(lucas_lehmer_iterate_term(m, 10) == 137653781390795 && lucas_lehmer_zero_free(m, 11));
    assert(lucas_lehmer_iterate_term(m, 11) == 131714715314256 && lucas_lehmer_zero_free(m, 12));
    assert(lucas_lehmer_iterate_term(m, 12) == 8708539861091 && lucas_lehmer_zero_free(m, 13));
    assert(lucas_lehmer_iterate_term(m, 13) == 119033228659006 && lucas_lehmer_zero_free(m, 14));
    assert(lucas_lehmer_iterate_term(m, 14) == 32988174764748 && lucas_lehmer_zero_free(m, 15));
    assert(lucas_lehmer_iterate_term(m, 15) == 117053282325316 && lucas_lehmer_zero_free(m, 16));
    assert(lucas_lehmer_iterate_term(m, 16) == 92880590281529 && lucas_lehmer_zero_free(m, 17));
    assert(lucas_lehmer_iterate_term(m, 17) == 80340547039919 && lucas_lehmer_zero_free(m, 18));
    assert(lucas_lehmer_iterate_term(m, 18) == 100100458276852 && lucas_lehmer_zero_free(m, 19));
    assert(lucas_lehmer_iterate_term(m, 19) == 38472609598017 && lucas_lehmer_zero_free(m, 20));
    assert(lucas_lehmer_iterate_term(m, 20) == 15134735050545 && lucas_lehmer_zero_free(m, 21));
    assert(lucas_lehmer_iterate_term(m, 21) == 51350752209196 && lucas_lehmer_zero_free(m, 22));
    assert(lucas_lehmer_iterate_term(m, 22) == 61053486179717 && lucas_lehmer_zero_free(m, 23));
    assert(lucas_lehmer_iterate_term(m, 23) == 4288887928647 && lucas_lehmer_zero_free(m, 24));
    assert(lucas_lehmer_iterate_term(m, 24) == 16913368202590 && lucas_lehmer_zero_free(m, 25));
    assert(lucas_lehmer_iterate_term(m, 25) == 57385772824368 && lucas_lehmer_zero_free(m, 26));
    assert(lucas_lehmer_iterate_term(m, 26) == 95952494266999 && lucas_lehmer_zero_free(m, 27));
    assert(lucas_lehmer_iterate_term(m, 27) == 70215437689446 && lucas_lehmer_zero_free(m, 28));
    assert(lucas_lehmer_iterate_term(m, 28) == 2928963359482 && lucas_lehmer_zero_free(m, 29));
    assert(lucas_lehmer_iterate_term(m, 29) == 125945366598628 && lucas_lehmer_zero_free(m, 30));
    assert(lucas_lehmer_iterate_term(m, 30) == 36102331842336 && lucas_lehmer_zero_free(m, 31));
    assert(lucas_lehmer_iterate_term(m, 31) == 115030637294175 && lucas_lehmer_zero_free(m, 32));
    assert(lucas_lehmer_iterate_term(m, 32) == 114498928614302 && lucas_lehmer_zero_free(m, 33));
    assert(lucas_lehmer_iterate_term(m, 33) == 33460688087025 && lucas_lehmer_zero_free(m, 34));
    assert(lucas_lehmer_iterate_term(m, 34) == 9645522574825 && lucas_lehmer_zero_free(m, 35));
    assert(lucas_lehmer_iterate_term(m, 35) == 3514143730163 && lucas_lehmer_zero_free(m, 36));
    assert(lucas_lehmer_iterate_term(m, 36) == 32497911585258 && lucas_lehmer_zero_free(m, 37));
    assert(lucas_lehmer_iterate_term(m, 37) == 76676213752827 && lucas_lehmer_zero_free(m, 38));
    assert(lucas_lehmer_iterate_term(m, 38) == 57202940754580 && lucas_lehmer_zero_free(m, 39));
    assert(lucas_lehmer_iterate_term(m, 39) == 104935597992723 && lucas_lehmer_zero_free(m, 40));
    assert(lucas_lehmer_iterate_term(m, 40) == 121971205997790 && lucas_lehmer_zero_free(m, 41));
    assert(lucas_lehmer_iterate_term(m, 41) == 5879013259714 && lucas_lehmer_zero_free(m, 42));
    assert(lucas_lehmer_iterate_term(m, 42) == 77716517677586 && lucas_lehmer_zero_free(m, 43));
    assert(lucas_lehmer_iterate_term(m, 43) == 132222855545109 && lucas_lehmer_zero_free(m, 44));
    assert(lucas_lehmer_iterate_term(m, 44) == 48035103733327 && lucas_lehmer_zero_free(m, 45));
    assert(lucas_lehmer_iterate_term(m, 45) == 96699253829728);
}

/// The walk modulo `2^49 - 1`.
proof fn lemma_walk_49()
    ensures
        lucas_lehmer_zero_free(mersenne(49), 47),
        lucas_lehmer_iterate_term(mersenne(49), 47) == 6286417865673,
{
    lemma2_to64();
    lemma2_to64_rest();
    let m: int = 562949953421311;
    assert(mersenne(49) == m);
    assert(lucas_lehmer_zero_free(m, 0));
    assert(lucas_lehmer_iterate_term(m, 0) == 4 && lucas_lehmer_zero_free(m, 1));
    assert(lucas_lehmer_iterate_term(m, 1) == 14 && lucas_lehmer_zero_free(m, 2));
    assert(lucas_lehmer_iterate_term(m, 2) == 194 && lucas_lehmer_zero_free(m, 3));
    assert(lucas_lehmer_iterate_term(m, 3) == 37634 && lucas_lehmer_zero_free(m, 4));
    assert(lucas_lehmer_iterate_term(m, 4) == 1416317954 && lucas_lehmer_zero_free(m, 5));
    assert(lucas_lehmer_iterate_term(m, 5) == 165862782615021 && lucas_lehmer_zero_free(m, 6));
    assert(lucas_lehmer_iterate_term(m, 6) == 500273520133202 && lucas_lehmer_zero_free(m, 7));
    assert(lucas_lehmer_iterate_term(m, 7) == 184661662209340 && lucas_lehmer_zero_free(m, 8));
    assert(lucas_lehmer_iterate_term(m, 8) == 213252118135629 && lucas_lehmer_zero_free(m, 9));
    assert(lucas_lehmer_iterate_term(m, 9) == 399586074181602 && lucas_lehmer_zero_free(m, 10));
    assert(lucas_lehmer_iterate_term(m, 10) == 366900394430156 && lucas_lehmer_zero_free(m, 11));
    assert(lucas_lehmer_iterate_term(m, 11) == 261186828393271 && lucas_lehmer_zero_free(m, 12));
    assert(lucas_lehmer_iterate_term(m, 12) == 354721871939396 && lucas_lehmer_zero_free(m, 13));
    assert(lucas_lehmer_iterate_term(m, 13) == 410083879885212 && lucas_lehmer_zero_free(m, 14));
    assert(lucas_lehmer_iterate_term(m, 14) == 425264642973333 && lucas_lehmer_zero_free(m, 15));
    assert(lucas_lehmer_iterate_term(m, 15) == 57118952263393 && lucas_lehmer_zero_free(m, 16));
    assert(lucas_lehmer_iterate_term(m, 16) == 519787782211538 && lucas_lehmer_zero_free(m, 17));
    assert(lucas_lehmer_iterate_term(m, 17) == 320976791417881 && lucas_lehmer_zero_free(m, 18));
    assert(lucas_lehmer_iterate_term(m, 18) == 32461781419972 && lucas_lehmer_zero_free(m, 19));
    assert(lucas_lehmer_iterate_term(m, 19) == 17084946378174 && lucas_lehmer_zero_free(m, 20));
    assert(lucas_lehmer_iterate_term(m, 20) == 83087380304462 && lucas_lehmer_zero_free(m, 21));
    assert(lucas_lehmer_iterate_term(m, 21) == 198528976062033 && lucas_lehmer_zero_free(m, 22));
    assert(lucas_lehmer_iterate_term(m, 22) == 19200604689267 && lucas_lehmer_zero_free(m, 23));
    assert(lucas_lehmer_iterate_term(m, 23) == 210796872426115 && lucas_lehmer_zero_free(m, 24));
    assert(lucas_lehmer_iterate_term(m, 24) == 182126976902800 && lucas_lehmer_zero_free(m, 25));
    assert(lucas_lehmer_iterate_term(m, 25) == 274651490005042 && lucas_lehmer_zero_free(m, 26));
    assert(lucas_lehmer_iterate_term(m, 26) == 351804883403687 && lucas_lehmer_zero_free(m, 27));
    assert(lucas_lehmer_iterate_term(m, 27) == 200936250277320 && lucas_lehmer_zero_free(m, 28));
    assert(lucas_lehmer_iterate_term(m, 28) == 155007675438565 && lucas_lehmer_zero_free(m, 29));
    assert(lucas_lehmer_iterate_term(m, 29) == 262000526570418 && lucas_lehmer_zero_free(m, 30));
    assert(lucas_lehmer_iterate_term(m, 30) == 221789368059190 && lucas_lehmer_zero_free(m, 31));
    assert(lucas_lehmer_iterate_term(m, 31) == 411152826758871 && lucas_lehmer_zero_free(m, 32));
    assert(lucas_lehmer_iterate_term(m, 32) == 36646991352431 && lucas_lehmer_zero_free(m, 33));
    assert(lucas_lehmer_iterate_term(m, 33) == 109959422133931 && lucas_lehmer_zero_free(m, 34));
    assert(lucas_lehmer_iterate_term(m, 34) == 287625549080875 && lucas_lehmer_zero_free(m, 35));
    assert(lucas_lehmer_iterate_term(m, 35) == 331786990286391 && lucas_lehmer_zero_free(m, 36));
    assert(lucas_lehmer_iterate_term(m, 36) == 401515192924703 && lucas_lehmer_zero_free(m, 37));
    assert(lucas_lehmer_iterate_term(m, 37) == 273627948335848 && lucas_lehmer_zero_free(m, 38));
    assert(lucas_lehmer_iterate_term(m, 38) == 379612161807688 && lucas_lehmer_zero_free(m, 39));
    assert(lucas_lehmer_iterate_term(m, 39) == 227421788796485 && lucas_lehmer_zero_free(m, 40));
    assert(lucas_lehmer_iterate_term(m, 40) == 257465210609191 && lucas_lehmer_zero_free(m, 41));
    assert(lucas_lehmer_iterate_term(m, 41) == 108204599919554 && lucas_lehmer_zero_free(m, 42));
    assert(lucas_lehmer_iterate_term(m, 42) == 56411908913449 && lucas_lehmer_zero_free(m, 43));
    assert(lucas_lehmer_iterate_term(m, 43) == 78551396948456 && lucas_lehmer_zero_free(m, 44));
    assert(lucas_lehmer_iterate_term(m, 44) == 124114950360410 && lucas_lehmer_zero_free(m, 45));
    assert(lucas_lehmer_iterate_term(m, 45) == 376777527918039 && lucas_lehmer_zero_free(m, 46));
    assert(lucas_lehmer_iterate_term(m, 46) == 252663993837755 && lucas_lehmer_zero_free(m, 47));
    assert(lucas_lehmer_iterate_term(m, 47) == 6286417865673);
}

/// The walk modulo `2^51 - 1`.
proof fn lemma_walk_51()
    ensures
        lucas_lehmer_zero_free(mersenne(51), 49),
        lucas_lehmer_iterate_term(mersenne(51), 49) == 1517578005860856,
{
    lemma2_to64();
    lemma2_to64_rest();
    let m: int = 2251799813685247;
    assert(mersenne(51) == m);
    assert(lucas_lehmer_zero_free(m, 0));
    assert(lucas_lehmer_iterate_term(m, 0) == 4 && lucas_lehmer_zero_free(m, 1));
    assert(lucas_lehmer_iterate_term(m, 1) == 14 && lucas_lehmer_zero_free(m, 2));
    assert(lucas_lehmer_iterate_term(m, 2) == 194 && lucas_lehmer_zero_free(m, 3));
    assert(lucas_lehmer_iterate_term(m, 3) == 37634 && lucas_lehmer_zero_free(m, 4));
    assert(lucas_lehmer_iterate_term(m, 4) == 1416317954 && lucas_lehmer_zero_free(m, 5));
    assert(lucas_lehmer_iterate_term(m, 5) == 1854712642876284 && lucas_lehmer_zero_free(m, 6));
    assert(lucas_lehmer_iterate_term(m, 6) == 1922794576186745 && lucas_lehmer_zero_free(m, 7));
    assert(lucas_lehmer_iterate_term(m, 7) == 1301401272753500 && lucas_lehmer_zero_free(m, 8));
    assert(lucas_lehmer_iterate_term(m, 8) == 284876301509956 && lucas_lehmer_zero_free(m, 9));
    assert(lucas_lehmer_iterate_term(m, 9) == 14036911770954 && lucas_lehmer_zero_free(m, 10));
    assert(lucas_lehmer_iterate_term(m, 10) == 633117275846204 && lucas_lehmer_zero_free(m, 11));
    assert(lucas_lehmer_iterate_term(m, 11) == 2077438765007755 && lucas_lehmer_zero_free(m, 12));
    assert(lucas_lehmer_iterate_term(m, 12) == 2103438120532415 && lucas_lehmer_zero_free(m, 13));
    assert(lucas_lehmer_iterate_term(m, 13) == 738140376379457 && lucas_lehmer_zero_free(m, 14));
    assert(lucas_lehmer_iterate_term(m, 14) == 1138013883644570 && lucas_lehmer_zero_free(m, 15));
    assert(lucas_lehmer_iterate_term(m, 15) == 981436002922671 && lucas_lehmer_zero_free(m, 16));
    assert(lucas_lehmer_iterate_term(m, 16) == 195389172844658 && lucas_lehmer_zero_free(m, 17));
    assert(lucas_lehmer_iterate_term(m, 17) == 490843055188334 && lucas_lehmer_zero_free(m, 18));
    assert(lucas_lehmer_iterate_term(m, 18) == 59686154375276 && lucas_lehmer_zero_free(m, 19));
    assert(lucas_lehmer_iterate_term(m, 19) == 672415521566455 && lucas_lehmer_zero_free(m, 20));
    assert(lucas_lehmer_iterate_term(m, 20) == 1990576471974309 && lucas_lehmer_zero_free(m, 21));
    assert(lucas_lehmer_iterate_term(m, 21) == 2220344845655617 && lucas_lehmer_zero_free(m, 22));
    assert(lucas_lehmer_iterate_term(m, 22) == 1860553127720149 && lucas_lehmer_zero_free(m, 23));
    assert(lucas_lehmer_iterate_term(m, 23) == 548330817021836 && lucas_lehmer_zero_free(m, 24));
    assert(lucas_lehmer_iterate_term(m, 24) == 1850911112294778 && lucas_lehmer_zero_free(m, 25));
    assert(lucas_lehmer_iterate_term(m, 25) == 1367893528478990 && lucas_lehmer_zero_free(m, 26));
    assert(lucas_lehmer_iterate_term(m, 26) == 1872438243481108 && lucas_lehmer_zero_free(m, 27));
    assert(lucas_lehmer_iterate_term(m, 27) == 577654745964466 && lucas_lehmer_zero_free(m, 28));
    assert(lucas_lehmer_iterate_term(m, 28) == 1501920242443070 && lucas_lehmer_zero_free(m, 29));
    assert(lucas_lehmer_iterate_term(m, 29) == 2128537769063225 && lucas_lehmer_zero_free(m, 30));
    assert(lucas_lehmer_iterate_term(m, 30) == 265244296168364 && lucas_lehmer_zero_free(m, 31));
    assert(lucas_lehmer_iterate_term(m, 31) == 1184253185342341 && lucas_lehmer_zero_free(m, 32));
    assert(lucas_lehmer_iterate_term(m, 32) == 524539884932604 && lucas_lehmer_zero_free(m, 33));
    assert(lucas_lehmer_iterate_term(m, 33) == 952712584548300 && lucas_lehmer_zero_free(m, 34));
    assert(lucas_lehmer_iterate_term(m, 34) == 343232186168755 && lucas_lehmer_zero_free(m, 35));
    assert(lucas_lehmer_iterate_term(m, 35) == 1775526630124354 && lucas_lehmer_zero_free(m, 36));
    assert(lucas_lehmer_iterate_term(m, 36) == 842595792859382 && lucas_lehmer_zero_free(m, 37));
    assert(lucas_lehmer_iterate_term(m, 37) == 1795970214786127 && lucas_lehmer_zero_free(m, 38));
    assert(lucas_lehmer_iterate_term(m, 38) == 35871039817615 && lucas_lehmer_zero_free(m, 39));
    assert(lucas_lehmer_iterate_term(m, 39) == 10231271451144 && lucas_lehmer_zero_free(m, 40));
    assert(lucas_lehmer_iterate_term(m, 40) == 1041602810645609 && lucas_lehmer_zero_free(m, 41));
    assert(lucas_lehmer_iterate_term(m, 41) == 768454487011563 && lucas_lehmer_zero_free(m, 42));
    assert(lucas_lehmer_iterate_term(m, 42) == 811789496126247 && lucas_lehmer_zero_free(m, 43));
    assert(lucas_lehmer_iterate_term(m, 43) == 567856029391471 && lucas_lehmer_zero_free(m, 44));
    assert(lucas_lehmer_iterate_term(m, 44) == 2171180498251 && lucas_lehmer_zero_free(m, 45));
    assert(lucas_lehmer_iterate_term(m, 45) == 223419898154336 && lucas_lehmer_zero_free(m, 46));
    assert(lucas_lehmer_iterate_term(m, 46) == 357450135306896 && lucas_lehmer_zero_free(m, 47));
    assert(lucas_lehmer_iterate_term(m, 47) == 1199639822891645 && lucas_lehmer_zero_free(m, 48));
    assert(lucas_lehmer_iterate_term(m, 48) == 600700141093929 && lucas_lehmer_zero_free(m, 49));
    assert(lucas_lehmer_iterate_term(m, 49) == 1517578005860856);
}

/// The walk modulo `2^53 - 1`.
proof fn lemma_walk_53()
    ensures
        lucas_lehmer_zero_free(mersenne(53), 51),
        lucas_lehmer_iterate_term(mersenne(53), 51) == 5810550306096509,
{
    lemma2_to64();
    lemma2_to64_rest();
    let m: int = 9007199254740991;
    assert(mersenne(53) == m);
    assert(lucas_lehmer_zero_free(m, 0));
    assert(lucas_lehmer_iterate_term(m, 0) == 4 && lucas_lehmer_zero_free(m, 1));
    assert(lucas_lehmer_iterate_term(m, 1) == 14 && lucas_lehmer_zero_free(m, 2));
    assert(lucas_lehmer_iterate_term(m, 2) == 194 && lucas_lehmer_zero_free(m, 3));
    assert(lucas_lehmer_iterate_term(m, 3) == 37634 && lucas_lehmer_zero_free(m, 4));
    assert(lucas_lehmer_iterate_term(m, 4) == 1416317954 && lucas_lehmer_zero_free(m, 5));
    assert(lucas_lehmer_iterate_term(m, 5) == 6358312270246112 && lucas_lehmer_zero_free(m, 6));
    assert(lucas_lehmer_iterate_term(m, 6) == 1715474889010726 && lucas_lehmer_zero_free(m, 7));
    assert(lucas_lehmer_iterate_term(m, 7) == 1789166790851859 && lucas_lehmer_zero_free(m, 8));
    assert(lucas_lehmer_iterate_term(m, 8) == 5612645876409312 && lucas_lehmer_zero_free(m, 9));
    assert(lucas_lehmer_iterate_term(m, 9) == 5514630427547170 && lucas_lehmer_zero_free(m, 10));
    assert(lucas_lehmer_iterate_term(m, 10) == 5545204842114531 && lucas_lehmer_zero_free(m, 11));
    assert(lucas_lehmer_iterate_term(m, 11) == 3624113428932931 && lucas_lehmer_zero_free(m, 12));
    assert(lucas_lehmer_iterate_term(m, 12) == 1442394919141367 && lucas_lehmer_zero_free(m, 13));
    assert(lucas_lehmer_iterate_term(m, 13) == 3079751272353918 && lucas_lehmer_zero_free(m, 14));
    assert(lucas_lehmer_iterate_term(m, 14) == 1205943386738897 && lucas_lehmer_zero_free(m, 15));
    assert(lucas_lehmer_iterate_term(m, 15) == 3546024977620002 && lucas_lehmer_zero_free(m, 16));
    assert(lucas_lehmer_iterate_term(m, 16) == 1770323371210156 && lucas_lehmer_zero_free(m, 17));
    assert(lucas_lehmer_iterate_term(m, 17) == 4173229072429397 && lucas_lehmer_zero_free(m, 18));
    assert(lucas_lehmer_iterate_term(m, 18) == 3346170444659406 && lucas_lehmer_zero_free(m, 19));
    assert(lucas_lehmer_iterate_term(m, 19) == 584639812042756 && lucas_lehmer_zero_free(m, 20));
    assert(lucas_lehmer_iterate_term(m, 20) == 2544571322166930 && lucas_lehmer_zero_free(m, 21));
    assert(lucas_lehmer_iterate_term(m, 21) == 6957382028639249 && lucas_lehmer_zero_free(m, 22));
    assert(lucas_lehmer_iterate_term(m, 22) == 1076822143631016 && lucas_lehmer_zero_free(m, 23));
    assert(lucas_lehmer_iterate_term(m, 23) == 6634818928722883 && lucas_lehmer_zero_free(m, 24));
    assert(lucas_lehmer_iterate_term(m, 24) == 6298245626828825 && lucas_lehmer_zero_free(m, 25));
    assert(lucas_lehmer_iterate_term(m, 25) == 5072866205726307 && lucas_lehmer_zero_free(m, 26));
    assert(lucas_lehmer_iterate_term(m, 26) == 8029404749340149 && lucas_lehmer_zero_free(m, 27));
    assert(lucas_lehmer_iterate_term(m, 27) == 5162737072130971 && lucas_lehmer_zero_free(m, 28));
    assert(lucas_lehmer_iterate_term(m, 28) == 2732676031871195 && lucas_lehmer_zero_free(m, 29));
    assert(lucas_lehmer_iterate_term(m, 29) == 2443980336168924 && lucas_lehmer_zero_free(m, 30));
    assert(lucas_lehmer_iterate_term(m, 30) == 7585928650249526 && lucas_lehmer_zero_free(m, 31));
    assert(lucas_lehmer_iterate_term(m, 31) == 4289605865136651 && lucas_lehmer_zero_free(m, 32));
    assert(lucas_lehmer_iterate_term(m, 32) == 5762531283620430 && lucas_lehmer_zero_free(m, 33));
    assert(lucas_lehmer_iterate_term(m, 33) == 6811593785597656 && lucas_lehmer_zero_free(m, 34));
    assert(lucas_lehmer_iterate_term(m, 34) == 7807141019569872 && lucas_lehmer_zero_free(m, 35));
    assert(lucas_lehmer_iterate_term(m, 35) == 260029898882076 && lucas_lehmer_zero_free(m, 36));
    assert(lucas_lehmer_iterate_term(m, 36) == 7519194085161162 && lucas_lehmer_zero_free(m, 37));
    assert(lucas_lehmer_iterate_term(m, 37) == 6469518128811960 && lucas_lehmer_zero_free(m, 38));
    assert(lucas_lehmer_iterate_term(m, 38) == 1746719520003263 && lucas_lehmer_zero_free(m, 39));
    assert(lucas_lehmer_iterate_term(m, 39) == 3450043444928564 && lucas_lehmer_zero_free(m, 40));
    assert(lucas_lehmer_iterate_term(m, 40) == 5313050590037445 && lucas_lehmer_zero_free(m, 41));
    assert(lucas_lehmer_iterate_term(m, 41) == 7330814715745278 && lucas_lehmer_zero_free(m, 42));
    assert(lucas_lehmer_iterate_term(m, 42) == 8939557547608643 && lucas_lehmer_zero_free(m, 43));
    assert(lucas_lehmer_iterate_term(m, 43) == 4659662833542624 && lucas_lehmer_zero_free(m, 44));
    assert(lucas_lehmer_iterate_term(m, 44) == 3159089633546819 && lucas_lehmer_zero_free(m, 45));
    assert(lucas_lehmer_iterate_term(m, 45) == 5931277566409394 && lucas_lehmer_zero_free(m, 46));
    assert(lucas_lehmer_iterate_term(m, 46) == 4568457529505136 && lucas_lehmer_zero_free(m, 47));
    assert(lucas_lehmer_iterate_term(m, 47) == 4843228923158626 && lucas_lehmer_zero_free(m, 48));
    assert(lucas_lehmer_iterate_term(m, 48) == 5260668697282027 && lucas_lehmer_zero_free(m, 49));
    assert(lucas_lehmer_iterate_term(m, 49) == 3840524021793255 && lucas_lehmer_zero_free(m, 50));
    assert(lucas_lehmer_iterate_term(m, 50) == 2201776961465454 && lucas_lehmer_zero_free(m, 51));
    assert(lucas_lehmer_iterate_term(m, 51) == 5810550306096509);
}

/// The walk modulo `2^55 - 1`.
proof fn lemma_walk_55()
    ensures
        lucas_lehmer_zero_free(mersenne(55), 53),
        lucas_lehmer_iterate_term(mersenne(55), 53) == 28188901858233694,
{
    lemma2_to64();
    lemma2_to64_rest();
    let m: int = 36028797018963967;
    assert(mersenne(55) == m);
    assert(lucas_lehmer_zero_free(m, 0));
    assert(lucas_lehmer_iterate_term(m, 0) == 4 && lucas_lehmer_zero_free(m, 1));
    assert(lucas_lehmer_iterate_term(m, 1) == 14 && lucas_lehmer_zero_free(m, 2));
    assert(lucas_lehmer_iterate_term(m, 2) == 194 && lucas_lehmer_zero_free(m, 3));
    assert(lucas_lehmer_iterate_term(m, 3) == 37634 && lucas_lehmer_zero_free(m, 4));
    assert(lucas_lehmer_iterate_term(m, 4) == 1416317954 && lucas_lehmer_zero_free(m, 5));
    assert(lucas_lehmer_iterate_term(m, 5) == 24372710779727929 && lucas_lehmer_zero_free(m, 6));
    assert(lucas_lehmer_iterate_term(m, 6) == 15737393802889015 && lucas_lehmer_zero_free(m, 7));
    assert(lucas_lehmer_iterate_term(m, 7) == 16142032252483118 && lucas_lehmer_zero_free(m, 8));
    assert(lucas_lehmer_iterate_term(m, 8) == 34638517562684528 && lucas_lehmer_zero_free(m, 9));
    assert(lucas_lehmer_iterate_term(m, 9) == 21160497686507066 && lucas_lehmer_zero_free(m, 10));
    assert(lucas_lehmer_iterate_term(m, 10) == 24979113698539264 && lucas_lehmer_zero_free(m, 11));
    assert(lucas_lehmer_iterate_term(m, 11) == 9943839227162515 && lucas_lehmer_zero_free(m, 12));
    assert(lucas_lehmer_iterate_term(m, 12) == 22028891732334169 && lucas_lehmer_zero_free(m, 13));
    assert(lucas_lehmer_iterate_term(m, 13) == 11364091212888897 && lucas_lehmer_zero_free(m, 14));
    assert(lucas_lehmer_iterate_term(m, 14) == 27201627593751297 && lucas_lehmer_zero_free(m, 15));
    assert(lucas_lehmer_iterate_term(m, 15) == 28110834736376434 && lucas_lehmer_zero_free(m, 16));
    assert(lucas_lehmer_iterate_term(m, 16) == 34397229196027153 && lucas_lehmer_zero_free(m, 17));
    assert(lucas_lehmer_iterate_term(m, 17) == 7873901734674027 && lucas_lehmer_zero_free(m, 18));
    assert(lucas_lehmer_iterate_term(m, 18) == 34929086187743710 && lucas_lehmer_zero_free(m, 19));
    assert(lucas_lehmer_iterate_term(m, 19) == 30818893599844533 && lucas_lehmer_zero_free(m, 20));
    assert(lucas_lehmer_iterate_term(m, 20) == 10035667452537379 && lucas_lehmer_zero_free(m, 21));
    assert(lucas_lehmer_iterate_term(m, 21) == 25131257440594156 && lucas_lehmer_zero_free(m, 22));
    assert(lucas_lehmer_iterate_term(m, 22) == 3773643724991803 && lucas_lehmer_zero_free(m, 23));
    assert(lucas_lehmer_iterate_term(m, 23) == 15475517879125480 && lucas_lehmer_zero_free(m, 24));
    assert(lucas_lehmer_iterate_term(m, 24) == 32976938153422471 && lucas_lehmer_zero_free(m, 25));
    assert(lucas_lehmer_iterate_term(m, 25) == 25867177614087092 && lucas_lehmer_zero_free(m, 26));
    assert(lucas_lehmer_iterate_term(m, 26) == 24494060588054363 && lucas_lehmer_zero_free(m, 27));
    assert(lucas_lehmer_iterate_term(m, 27) == 35325624674144939 && lucas_lehmer_zero_free(m, 28));
    assert(lucas_lehmer_iterate_term(m, 28) == 33613838180502503 && lucas_lehmer_zero_free(m, 29));
    assert(lucas_lehmer_iterate_term(m, 29) == 21184192667744233 && lucas_lehmer_zero_free(m, 30));
    assert(lucas_lehmer_iterate_term(m, 30) == 17248071741091638 && lucas_lehmer_zero_free(m, 31));
    assert(lucas_lehmer_iterate_term(m, 31) == 18864029156147900 && lucas_lehmer_zero_free(m, 32));
    assert(lucas_lehmer_iterate_term(m, 32) == 33495254884003565 && lucas_lehmer_zero_free(m, 33));
    assert(lucas_lehmer_iterate_term(m, 33) == 592395876818378 && lucas_lehmer_zero_free(m, 34));
    assert(lucas_lehmer_iterate_term(m, 34) == 21467064793827481 && lucas_lehmer_zero_free(m, 35));
    assert(lucas_lehmer_iterate_term(m, 35) == 30807401521347367 && lucas_lehmer_zero_free(m, 36));
    assert(lucas_lehmer_iterate_term(m, 36) == 12247406481089628 && lucas_lehmer_zero_free(m, 37));
    assert(lucas_lehmer_iterate_term(m, 37) == 24776851609603652 && lucas_lehmer_zero_free(m, 38));
    assert(lucas_lehmer_iterate_term(m, 38) == 10907980168031405 && lucas_lehmer_zero_free(m, 39));
    assert(lucas_lehmer_iterate_term(m, 39) == 20879631410731162 && lucas_lehmer_zero_free(m, 40));
    assert(lucas_lehmer_iterate_term(m, 40) == 30950581134361181 && lucas_lehmer_zero_free(m, 41));
    assert(lucas_lehmer_iterate_term(m, 41) == 19577882245052451 && lucas_lehmer_zero_free(m, 42));
    assert(lucas_lehmer_iterate_term(m, 42) == 3110226590615507 && lucas_lehmer_zero_free(m, 43));
    assert(lucas_lehmer_iterate_term(m, 43) == 6861302660428709 && lucas_lehmer_zero_free(m, 44));
    assert(lucas_lehmer_iterate_term(m, 44) == 33565302999696687 && lucas_lehmer_zero_free(m, 45));
    assert(lucas_lehmer_iterate_term(m, 45) == 18145600362295484 && lucas_lehmer_zero_free(m, 46));
    assert(lucas_lehmer_iterate_term(m, 46) == 5488969399995164 && lucas_lehmer_zero_free(m, 47));
    assert(lucas_lehmer_iterate_term(m, 47) == 705711367301644 && lucas_lehmer_zero_free(m, 48));
    assert(lucas_lehmer_iterate_term(m, 48) == 34230711656146475 && lucas_lehmer_zero_free(m, 49));
    assert(lucas_lehmer_iterate_term(m, 49) == 2927440872917539 && lucas_lehmer_zero_free(m, 50));
    assert(lucas_lehmer_iterate_term(m, 50) == 8694039960160927 && lucas_lehmer_zero_free(m, 51));
    assert(lucas_lehmer_iterate_term(m, 51) == 13525953684037166 && lucas_lehmer_zero_free(m, 52));
    assert(lucas_lehmer_iterate_term(m, 52) == 10155236476086187 && lucas_lehmer_zero_free(m, 53));
    assert(lucas_lehmer_iterate_term(m, 53) == 28188901858233694);
}

/// The walk modulo `2^57 - 1`.
proof fn lemma_walk_57()
    ensures
        lucas_lehmer_zero_free(mersenne(57), 55),
        lucas_lehmer_iterate_term(mersenne(57), 55) == 98479934225463653,
{
    lemma2_to64();
    lemma2_to64_rest();
    let m: int = 144115188075855871;
    assert(mersenne(57) == m);
    assert(lucas_lehmer_zero_free(m, 0));
    assert(lucas_lehmer_iterate_term(m, 0) == 4 && lucas_lehmer_zero_free(m, 1));
    assert(lucas_lehmer_iterate_term(m, 1) == 14 && lucas_lehmer_zero_free(m, 2));
    assert(lucas_lehmer_iterate_term(m, 2) == 194 && lucas_lehmer_zero_free(m, 3));
    assert(lucas_lehmer_iterate_term(m, 3) == 37634 && lucas_lehmer_zero_free(m, 4));
    assert(lucas_lehmer_iterate_term(m, 4) == 1416317954 && lucas_lehmer_zero_free(m, 5));
    assert(lucas_lehmer_iterate_term(m, 5) == 132459101836619791 && lucas_lehmer_zero_free(m, 6));
    assert(lucas_lehmer_iterate_term(m, 6) == 19242873531367306 && lucas_lehmer_zero_free(m, 7));
    assert(lucas_lehmer_iterate_term(m, 7) == 92655090584108418 && lucas_lehmer_zero_free(m, 8));
    assert(lucas_lehmer_iterate_term(m, 8) == 133670164331896138 && lucas_lehmer_zero_free(m, 9));
    assert(lucas_lehmer_iterate_term(m, 9) == 119506838224784621 && lucas_lehmer_zero_free(m, 10));
    assert(lucas_lehmer_iterate_term(m, 10) == 138255999388531964 && lucas_lehmer_zero_free(m, 11));
    assert(lucas_lehmer_iterate_term(m, 11) == 14910525017958243 && lucas_lehmer_zero_free(m, 12));
    assert(lucas_lehmer_iterate_term(m, 12) == 6800956631968942 && lucas_lehmer_zero_free(m, 13));
    assert(lucas_lehmer_iterate_term(m, 13) == 57789210466402459 && lucas_lehmer_zero_free(m, 14));
    assert(lucas_lehmer_iterate_term(m, 14) == 47503116676295436 && lucas_lehmer_zero_free(m, 15));
    assert(lucas_lehmer_iterate_term(m, 15) == 81459407891725166 && lucas_lehmer_zero_free(m, 16));
    assert(lucas_lehmer_iterate_term(m, 16) == 41661605347680131 && lucas_lehmer_zero_free(m, 17));
    assert(lucas_lehmer_iterate_term(m, 17) == 46662333318088105 && lucas_lehmer_zero_free(m, 18));
    assert(lucas_lehmer_iterate_term(m, 18) == 22516757633358459 && lucas_lehmer_zero_free(m, 19));
    assert(lucas_lehmer_iterate_term(m, 19) == 121454879429822962 && lucas_lehmer_zero_free(m, 20));
    assert(lucas_lehmer_iterate_term(m, 20) == 19735974533558943 && lucas_lehmer_zero_free(m, 21));
    assert(lucas_lehmer_iterate_term(m, 21) == 19310460940487677 && lucas_lehmer_zero_free(m, 22));
    assert(lucas_lehmer_iterate_term(m, 22) == 12064382322186168 && lucas_lehmer_zero_free(m, 23));
    assert(lucas_lehmer_iterate_term(m, 23) == 17684811219420508 && lucas_lehmer_zero_free(m, 24));
    assert(lucas_lehmer_iterate_term(m, 24) == 43422300806205204 && lucas_lehmer_zero_free(m, 25));
    assert(lucas_lehmer_iterate_term(m, 25) == 59421546071595360 && lucas_lehmer_zero_free(m, 26));
    assert(lucas_lehmer_iterate_term(m, 26) == 124865412807738283 && lucas_lehmer_zero_free(m, 27));
    assert(lucas_lehmer_iterate_term(m, 27) == 24914799307163047 && lucas_lehmer_zero_free(m, 28));
    assert(lucas_lehmer_iterate_term(m, 28) == 116933381956579211 && lucas_lehmer_zero_free(m, 29));
    assert(lucas_lehmer_iterate_term(m, 29) == 61394172411576783 && lucas_lehmer_zero_free(m, 30));
    assert(lucas_lehmer_iterate_term(m, 30) == 77522324416306233 && lucas_lehmer_zero_free(m, 31));
    assert(lucas_lehmer_iterate_term(m, 31) == 38579299057433283 && lucas_lehmer_zero_free(m, 32));
    assert(lucas_lehmer_iterate_term(m, 32) == 9450377282145305 && lucas_lehmer_zero_free(m, 33));
    assert(lucas_lehmer_iterate_term(m, 33) == 44836468482672827 && lucas_lehmer_zero_free(m, 34));
    assert(lucas_lehmer_iterate_term(m, 34) == 73194776459186832 && lucas_lehmer_zero_free(m, 35));
    assert(lucas_lehmer_iterate_term(m, 35) == 121173265759278924 && lucas_lehmer_zero_free(m, 36));
    assert(lucas_lehmer_iterate_term(m, 36) == 96077963749877286 && lucas_lehmer_zero_free(m, 37));
    assert(lucas_lehmer_iterate_term(m, 37) == 65415893138492990 && lucas_lehmer_zero_free(m, 38));
    assert(lucas_lehmer_iterate_term(m, 38) == 98984375674340494 && lucas_lehmer_zero_free(m, 39));
    assert(lucas_lehmer_iterate_term(m, 39) == 72123043027824154 && lucas_lehmer_zero_free(m, 40));
    assert(lucas_lehmer_iterate_term(m, 40) == 35015764641131976 && lucas_lehmer_zero_free(m, 41));
    assert(lucas_lehmer_iterate_term(m, 41) == 111482463882777969 && lucas_lehmer_zero_free(m, 42));
    assert(lucas_lehmer_iterate_term(m, 42) == 133049274083383639 && lucas_lehmer_zero_free(m, 43));
    assert(lucas_lehmer_iterate_term(m, 43) == 33748455318146571 && lucas_lehmer_zero_free(m, 44));
    assert(lucas_lehmer_iterate_term(m, 44) == 3964633788301335 && lucas_lehmer_zero_free(m, 45));
    assert(lucas_lehmer_iterate_term(m, 45) == 52532270150634696 && lucas_lehmer_zero_free(m, 46));
    assert(lucas_lehmer_iterate_term(m, 46) == 15769710952980854 && lucas_lehmer_zero_free(m, 47));
    assert(lucas_lehmer_iterate_term(m, 47) == 68035348563949888 && lucas_lehmer_zero_free(m, 48));
    assert(lucas_lehmer_iterate_term(m, 48) == 24886165067523013 && lucas_lehmer_zero_free(m, 49));
    assert(lucas_lehmer_iterate_term(m, 49) == 75726603094430766 && lucas_lehmer_zero_free(m, 50));
    assert(lucas_lehmer_iterate_term(m, 50) == 85540802634071052 && lucas_lehmer_zero_free(m, 51));
    assert(lucas_lehmer_iterate_term(m, 51) == 110960569306070647 && lucas_lehmer_zero_free(m, 52));
    assert(lucas_lehmer_iterate_term(m, 52) == 131419981335222638 && lucas_lehmer_zero_free(m, 53));
    assert(lucas_lehmer_iterate_term(m, 53) == 103206510920825244 && lucas_lehmer_zero_free(m, 54));
    assert(lucas_lehmer_iterate_term(m, 54) == 119345817198588430 && lucas_lehmer_zero_free(m, 55));
    assert(lucas_lehmer_iterate_term(m, 55) == 98479934225463653);
}

/// The walk modulo `2^59 - 1`.
proof fn lemma_walk_59()
    ensures
        lucas_lehmer_zero_free(mersenne(59), 57),
        lucas_lehmer_iterate_term(mersenne(59), 57) == 450529175803834166,
{
    lemma2_to64();
    lemma2_to64_rest();
    let m: int = 576460752303423487;
    assert(mersenne(59) == m);
    assert(lucas_lehmer_zero_free(m, 0));
    assert(lucas_lehmer_iterate_term(m, 0) == 4 && lucas_lehmer_zero_free(m, 1));
    assert(lucas_lehmer_iterate_term(m, 1) == 14 && lucas_lehmer_zero_free(m, 2));
    assert(lucas_lehmer_iterate_term(m, 2) == 194 && lucas_lehmer_zero_free(m, 3));
    assert(lucas_lehmer_iterate_term(m, 3) == 37634 && lucas_lehmer_zero_free(m, 4));
    assert(lucas_lehmer_iterate_term(m, 4) == 1416317954 && lucas_lehmer_zero_free(m, 5));
    assert(lucas_lehmer_iterate_term(m, 5) == 276574289912475653 && lucas_lehmer_zero_free(m, 6));
    assert(lucas_lehmer_iterate_term(m, 6) == 407428811417350079 && lucas_lehmer_zero_free(m, 7));
    assert(lucas_lehmer_iterate_term(m, 7) == 357033802182798966 && lucas_lehmer_zero_free(m, 8));
    assert(lucas_lehmer_iterate_term(m, 8) == 376313525297482947 && lucas_lehmer_zero_free(m, 9));
    assert(lucas_lehmer_iterate_term(m, 9) == 127815204936333389 && lucas_lehmer_zero_free(m, 10));
    assert(lucas_lehmer_iterate_term(m, 10) == 339794242789301579 && lucas_lehmer_zero_free(m, 11));
    assert(lucas_lehmer_iterate_term(m, 11) == 112486259952283467 && lucas_lehmer_zero_free(m, 12));
    assert(lucas_lehmer_iterate_term(m, 12) == 77500224084998745 && lucas_lehmer_zero_free(m, 13));
    assert(lucas_lehmer_iterate_term(m, 13) == 257964438650647478 && lucas_lehmer_zero_free(m, 14));
    assert(lucas_lehmer_iterate_term(m, 14) == 461222712094830346 && lucas_lehmer_zero_free(m, 15));
    assert(lucas_lehmer_iterate_term(m, 15) == 358853945633775818 && lucas_lehmer_zero_free(m, 16));
    assert(lucas_lehmer_iterate_term(m, 16) == 340894883161764183 && lucas_lehmer_zero_free(m, 17));
    assert(lucas_lehmer_iterate_term(m, 17) == 420795809767511783 && lucas_lehmer_zero_free(m, 18));
    assert(lucas_lehmer_iterate_term(m, 18) == 403632489430159864 && lucas_lehmer_zero_free(m, 19));
    assert(lucas_lehmer_iterate_term(m, 19) == 500137444491001774 && lucas_lehmer_zero_free(m, 20));
    assert(lucas_lehmer_iterate_term(m, 20) == 512429566616200805 && lucas_lehmer_zero_free(m, 21));
    assert(lucas_lehmer_iterate_term(m, 21) == 92296395761735368 && lucas_lehmer_zero_free(m, 22));
    assert(lucas_lehmer_iterate_term(m, 22) == 251429207888856824 && lucas_lehmer_zero_free(m, 23));
    assert(lucas_lehmer_iterate_term(m, 23) == 557685134365649581 && lucas_lehmer_zero_free(m, 24));
    assert(lucas_lehmer_iterate_term(m, 24) == 24025891795965244 && lucas_lehmer_zero_free(m, 25));
    assert(lucas_lehmer_iterate_term(m, 25) == 92588887029631620 && lucas_lehmer_zero_free(m, 26));
    assert(lucas_lehmer_iterate_term(m, 26) == 511411940043278813 && lucas_lehmer_zero_free(m, 27));
    assert(lucas_lehmer_iterate_term(m, 27) == 134714800134633935 && lucas_lehmer_zero_free(m, 28));
    assert(lucas_lehmer_iterate_term(m, 28) == 112742003466760780 && lucas_lehmer_zero_free(m, 29));
    assert(lucas_lehmer_iterate_term(m, 29) == 311756257597236162 && lucas_lehmer_zero_free(m, 30));
    assert(lucas_lehmer_iterate_term(m, 30) == 230935441477371364 && lucas_lehmer_zero_free(m, 31));
    assert(lucas_lehmer_iterate_term(m, 31) == 163782402797722595 && lucas_lehmer_zero_free(m, 32));
    assert(lucas_lehmer_iterate_term(m, 32) == 364430952247421060 && lucas_lehmer_zero_free(m, 33));
    assert(lucas_lehmer_iterate_term(m, 33) == 197573989331570372 && lucas_lehmer_zero_free(m, 34));
    assert(lucas_lehmer_iterate_term(m, 34) == 399051281107960146 && lucas_lehmer_zero_free(m, 35));
    assert(lucas_lehmer_iterate_term(m, 35) == 234670981125540653 && lucas_lehmer_zero_free(m, 36));
    assert(lucas_lehmer_iterate_term(m, 36) == 110976559902140266 && lucas_lehmer_zero_free(m, 37));
    assert(lucas_lehmer_iterate_term(m, 37) == 411027297177286299 && lucas_lehmer_zero_free(m, 38));
    assert(lucas_lehmer_iterate_term(m, 38) == 474387735470909444 && lucas_lehmer_zero_free(m, 39));
    assert(lucas_lehmer_iterate_term(m, 39) == 173347638666183217 && lucas_lehmer_zero_free(m, 40));
    assert(lucas_lehmer_iterate_term(m, 40) == 572317887396381123 && lucas_lehmer_zero_free(m, 41));
    assert(lucas_lehmer_iterate_term(m, 41) == 318867052236103130 && lucas_lehmer_zero_free(m, 42));
    assert(lucas_lehmer_iterate_term(m, 42) == 66251075631247054 && lucas_lehmer_zero_free(m, 43));
    assert(lucas_lehmer_iterate_term(m, 43) == 450745852641840145 && lucas_lehmer_zero_free(m, 44));
    assert(lucas_lehmer_iterate_term(m, 44) == 355392681947917264 && lucas_lehmer_zero_free(m, 45));
    assert(lucas_lehmer_iterate_term(m, 45) == 26859842359820565 && lucas_lehmer_zero_free(m, 46));
    assert(lucas_lehmer_iterate_term(m, 46) == 481353328823688864 && lucas_lehmer_zero_free(m, 47));
    assert(lucas_lehmer_iterate_term(m, 47) == 135823794085639689 && lucas_lehmer_zero_free(m, 48));
    assert(lucas_lehmer_iterate_term(m, 48) == 379991990971870840 && lucas_lehmer_zero_free(m, 49));
    assert(lucas_lehmer_iterate_term(m, 49) == 100738003432840926 && lucas_lehmer_zero_free(m, 50));
    assert(lucas_lehmer_iterate_term(m, 50) == 393959224500881444 && lucas_lehmer_zero_free(m, 51));
    assert(lucas_lehmer_iterate_term(m, 51) == 19130306266063236 && lucas_lehmer_zero_free(m, 52));
    assert(lucas_lehmer_iterate_term(m, 52) == 425266939645426679 && lucas_lehmer_zero_free(m, 53));
    assert(lucas_lehmer_iterate_term(m, 53) == 409515149533844779 && lucas_lehmer_zero_free(m, 54));
    assert(lucas_lehmer_iterate_term(m, 54) == 301785845830499619 && lucas_lehmer_zero_free(m, 55));
    assert(lucas_lehmer_iterate_term(m, 55) == 46607054295922621 && lucas_lehmer_zero_free(m, 56));
    assert(lucas_lehmer_iterate_term(m, 56) == 374344564583215270 && lucas_lehmer_zero_free(m, 57));
    assert(lucas_lehmer_iterate_term(m, 57) == 450529175803834166);
}

/// The walk modulo `2^61 - 1`.
proof fn lemma_walk_61()
    ensures
        lucas_lehmer_zero_free(mersenne(61), 59),
        lucas_lehmer_iterate_term(mersenne(61), 59) == 0,
{
    lemma2_to64();
    lemma2_to64_rest();
    let m: int = 2305843009213693951;
    assert(mersenne(61) == m);
    assert(lucas_lehmer_zero_free(m, 0));
    assert(lucas_lehmer_iterate_term(m, 0) == 4 && lucas_lehmer_zero_free(m, 1));
    assert(lucas_lehmer_iterate_term(m, 1) == 14 && lucas_lehmer_zero_free(m, 2));
    assert(lucas_lehmer_iterate_term(m, 2) == 194 && lucas_lehmer_zero_free(m, 3));
    assert(lucas_lehmer_iterate_term(m, 3) == 37634 && lucas_lehmer_zero_free(m, 4));
    assert(lucas_lehmer_iterate_term(m, 4) == 1416317954 && lucas_lehmer_zero_free(m, 5));
    assert(lucas_lehmer_iterate_term(m, 5) == 2005956546822746114 && lucas_lehmer_zero_free(m, 6));
    assert(lucas_lehmer_iterate_term(m, 6) == 360360107812989935 && lucas_lehmer_zero_free(m, 7));
    assert(lucas_lehmer_iterate_term(m, 7) == 21902747593568545 && lucas_lehmer_zero_free(m, 8));
    assert(lucas_lehmer_iterate_term(m, 8) == 1740602589084945420 && lucas_lehmer_zero_free(m, 9));
    assert(lucas_lehmer_iterate_term(m, 9) == 1337198076820436604 && lucas_lehmer_zero_free(m, 10));
    assert(lucas_lehmer_iterate_term(m, 10) == 2247350346121565718 && lucas_lehmer_zero_free(m, 11));
    assert(lucas_lehmer_iterate_term(m, 11) == 83171871456026787 && lucas_lehmer_zero_free(m, 12));
    assert(lucas_lehmer_iterate_term(m, 12) == 582723273476042577 && lucas_lehmer_zero_free(m, 13));
    assert(lucas_lehmer_iterate_term(m, 13) == 389768199659558512 && lucas_lehmer_zero_free(m, 14));
    assert(lucas_lehmer_iterate_term(m, 14) == 1660083560587298637 && lucas_lehmer_zero_free(m, 15));
    assert(lucas_lehmer_iterate_term(m, 15) == 1309051187682605027 && lucas_lehmer_zero_free(m, 16));
    assert(lucas_lehmer_iterate_term(m, 16) == 2060268568186095243 && lucas_lehmer_zero_free(m, 17));
    assert(lucas_lehmer_iterate_term(m, 17) == 1727984905136219803 && lucas_lehmer_zero_free(m, 18));
    assert(lucas_lehmer_iterate_term(m, 18) == 1123503237312787381 && lucas_lehmer_zero_free(m, 19));
    assert(lucas_lehmer_iterate_term(m, 19) == 720442006828744208 && lucas_lehmer_zero_free(m, 20));
    assert(lucas_lehmer_iterate_term(m, 20) == 1762244237164037571 && lucas_lehmer_zero_free(m, 21));
    assert(lucas_lehmer_iterate_term(m, 21) == 675035788244419149 && lucas_lehmer_zero_free(m, 22));
    assert(lucas_lehmer_iterate_term(m, 22) == 403242138936649547 && lucas_lehmer_zero_free(m, 23));
    assert(lucas_lehmer_iterate_term(m, 23) == 23218429299703654 && lucas_lehmer_zero_free(m, 24));
    assert(lucas_lehmer_iterate_term(m, 24) == 2303338777166369587 && lucas_lehmer_zero_free(m, 25));
    assert(lucas_lehmer_iterate_term(m, 25) == 1807999318695779203 && lucas_lehmer_zero_free(m, 26));
    assert(lucas_lehmer_iterate_term(m, 26) == 2117213806962939560 && lucas_lehmer_zero_free(m, 27));
    assert(lucas_lehmer_iterate_term(m, 27) == 608422148964310898 && lucas_lehmer_zero_free(m, 28));
    assert(lucas_lehmer_iterate_term(m, 28) == 1994472770237557072 && lucas_lehmer_zero_free(m, 29));
    assert(lucas_lehmer_iterate_term(m, 29) == 505071132657882993 && lucas_lehmer_zero_free(m, 30));
    assert(lucas_lehmer_iterate_term(m, 30) == 1458686264893839860 && lucas_lehmer_zero_free(m, 31));
    assert(lucas_lehmer_iterate_term(m, 31) == 828943682511799464 && lucas_lehmer_zero_free(m, 32));
    assert(lucas_lehmer_iterate_term(m, 32) == 1873899805900111440 && lucas_lehmer_zero_free(m, 33));
    assert(lucas_lehmer_iterate_term(m, 33) == 2100166639529159434 && lucas_lehmer_zero_free(m, 34));
    assert(lucas_lehmer_iterate_term(m, 34) == 1690337638073925992 && lucas_lehmer_zero_free(m, 35));
    assert(lucas_lehmer_iterate_term(m, 35) == 1850462809098646917 && lucas_lehmer_zero_free(m, 36));
    assert(lucas_lehmer_iterate_term(m, 36) == 655691867230185654 && lucas_lehmer_zero_free(m, 37));
    assert(lucas_lehmer_iterate_term(m, 37) == 1312985360173846259 && lucas_lehmer_zero_free(m, 38));
    assert(lucas_lehmer_iterate_term(m, 38) == 555029261697599761 && lucas_lehmer_zero_free(m, 39));
    assert(lucas_lehmer_iterate_term(m, 39) == 361044435199227874 && lucas_lehmer_zero_free(m, 40));
    assert(lucas_lehmer_iterate_term(m, 40) == 526190922173809863 && lucas_lehmer_zero_free(m, 41));
    assert(lucas_lehmer_iterate_term(m, 41) == 1323436870952128874 && lucas_lehmer_zero_free(m, 42));
    assert(lucas_lehmer_iterate_term(m, 42) == 891169157258972721 && lucas_lehmer_zero_free(m, 43));
    assert(lucas_lehmer_iterate_term(m, 43) == 185842366834216629 && lucas_lehmer_zero_free(m, 44));
    assert(lucas_lehmer_iterate_term(m, 44) == 222804261526276637 && lucas_lehmer_zero_free(m, 45));
    assert(lucas_lehmer_iterate_term(m, 45) == 991039614021822014 && lucas_lehmer_zero_free(m, 46));
    assert(lucas_lehmer_iterate_term(m, 46) == 481713520561357424 && lucas_lehmer_zero_free(m, 47));
    assert(lucas_lehmer_iterate_term(m, 47) == 1344980214107405881 && lucas_lehmer_zero_free(m, 48));
    assert(lucas_lehmer_iterate_term(m, 48) == 1970899971015200366 && lucas_lehmer_zero_free(m, 49));
    assert(lucas_lehmer_iterate_term(m, 49) == 1072613472477948613 && lucas_lehmer_zero_free(m, 50));
    assert(lucas_lehmer_iterate_term(m, 50) == 1908660977355480791 && lucas_lehmer_zero_free(m, 51));
    assert(lucas_lehmer_iterate_term(m, 51) == 863790468803724241 && lucas_lehmer_zero_free(m, 52));
    assert(lucas_lehmer_iterate_term(m, 52) == 2198539655050736259 && lucas_lehmer_zero_free(m, 53));
    assert(lucas_lehmer_iterate_term(m, 53) == 1534797684548241153 && lucas_lehmer_zero_free(m, 54));
    assert(lucas_lehmer_iterate_term(m, 54) == 257154353612781495 && lucas_lehmer_zero_free(m, 55));
    assert(lucas_lehmer_iterate_term(m, 55) == 2098355710732986488 && lucas_lehmer_zero_free(m, 56));
    assert(lucas_lehmer_iterate_term(m, 56) == 1394647967359914492 && lucas_lehmer_zero_free(m, 57));
    assert(lucas_lehmer_iterate_term(m, 57) == 1080792493261747995 && lucas_lehmer_zero_free(m, 58));
    assert(lucas_lehmer_iterate_term(m, 58) == 2147483648 && lucas_lehmer_zero_free(m, 59));
    assert(lucas_lehmer_iterate_term(m, 59) == 0);
}

/// The walk modulo `2^63 - 1`.
proof fn lemma_walk_63()
    ensures
        lucas_lehmer_zero_free(mersenne(63), 61),
        lucas_lehmer_iterate_term(mersenne(63), 61) == 6275811924108737971,
{
    lemma2_to64();
    lemma2_to64_rest();
    let m: int = 9223372036854775807;
    assert(mersenne(63) == m);
    assert(lucas_lehmer_zero_free(m, 0));
    assert(lucas_lehmer_iterate_term(m, 0) == 4 && lucas_lehmer_zero_free(m, 1));
    assert(lucas_lehmer_iterate_term(m, 1) == 14 && lucas_lehmer_zero_free(m, 2));
    assert(lucas_lehmer_iterate_term(m, 2) == 194 && lucas_lehmer_zero_free(m, 3));
    assert(lucas_lehmer_iterate_term(m, 3) == 37634 && lucas_lehmer_zero_free(m, 4));
    assert(lucas_lehmer_iterate_term(m, 4) == 1416317954 && lucas_lehmer_zero_free(m, 5));
    assert(lucas_lehmer_iterate_term(m, 5) == 2005956546822746114 && lucas_lehmer_zero_free(m, 6));
    assert(lucas_lehmer_iterate_term(m, 6) == 1357399248442891005 && lucas_lehmer_zero_free(m, 7));
    assert(lucas_lehmer_iterate_term(m, 7) == 7235756086658408241 && lucas_lehmer_zero_free(m, 8));
    assert(lucas_lehmer_iterate_term(m, 8) == 2665698204542657846 && lucas_lehmer_zero_free(m, 9));
    assert(lucas_lehmer_iterate_term(m, 9) == 7763103125879367219 && lucas_lehmer_zero_free(m, 10));
    assert(lucas_lehmer_iterate_term(m, 10) == 1507497941562848874 && lucas_lehmer_zero_free(m, 11));
    assert(lucas_lehmer_iterate_term(m, 11) == 3108529719979574718 && lucas_lehmer_zero_free(m, 12));
    assert(lucas_lehmer_iterate_term(m, 12) == 7133991521754493622 && lucas_lehmer_zero_free(m, 13));
    assert(lucas_lehmer_iterate_term(m, 13) == 717070211268599323 && lucas_lehmer_zero_free(m, 14));
    assert(lucas_lehmer_iterate_term(m, 14) == 2050985729122202035 && lucas_lehmer_zero_free(m, 15));
    assert(lucas_lehmer_iterate_term(m, 15) == 1438437828014258486 && lucas_lehmer_zero_free(m, 16));
    assert(lucas_lehmer_iterate_term(m, 16) == 2100205412186323178 && lucas_lehmer_zero_free(m, 17));
    assert(lucas_lehmer_iterate_term(m, 17) == 6451458554107030403 && lucas_lehmer_zero_free(m, 18));
    assert(lucas_lehmer_iterate_term(m, 18) == 8385460901650149711 && lucas_lehmer_zero_free(m, 19));
    assert(lucas_lehmer_iterate_term(m, 19) == 6229449474779700794 && lucas_lehmer_zero_free(m, 20));
    assert(lucas_lehmer_iterate_term(m, 20) == 7451550921642427924 && lucas_lehmer_zero_free(m, 21));
    assert(lucas_lehmer_iterate_term(m, 21) == 3555147364876288519 && lucas_lehmer_zero_free(m, 22));
    assert(lucas_lehmer_iterate_term(m, 22) == 4303245522135014877 && lucas_lehmer_zero_free(m, 23));
    assert(lucas_lehmer_iterate_term(m, 23) == 173769699347151084 && lucas_lehmer_zero_free(m, 24));
    assert(lucas_lehmer_iterate_term(m, 24) == 5335527086170337555 && lucas_lehmer_zero_free(m, 25));
    assert(lucas_lehmer_iterate_term(m, 25) == 5456145930182679881 && lucas_lehmer_zero_free(m, 26));
    assert(lucas_lehmer_iterate_term(m, 26) == 5629858499358781907 && lucas_lehmer_zero_free(m, 27));
    assert(lucas_lehmer_iterate_term(m, 27) == 4232877023839609427 && lucas_lehmer_zero_free(m, 28));
    assert(lucas_lehmer_iterate_term(m, 28) == 8994012448018678516 && lucas_lehmer_zero_free(m, 29));
    assert(lucas_lehmer_iterate_term(m, 29) == 2372664155849210582 && lucas_lehmer_zero_free(m, 30));
    assert(lucas_lehmer_iterate_term(m, 30) == 5036526774654276225 && lucas_lehmer_zero_free(m, 31));
    assert(lucas_lehmer_iterate_term(m, 31) == 1703569771394069896 && lucas_lehmer_zero_free(m, 32));
    assert(lucas_lehmer_iterate_term(m, 32) == 9215087536183672621 && lucas_lehmer_zero_free(m, 33));
    assert(lucas_lehmer_iterate_term(m, 33) == 3491531552485027557 && lucas_lehmer_zero_free(m, 34));
    assert(lucas_lehmer_iterate_term(m, 34) == 4087889492368684375 && lucas_lehmer_zero_free(m, 35));
    assert(lucas_lehmer_iterate_term(m, 35) == 2183351994220390023 && lucas_lehmer_zero_free(m, 36));
    assert(lucas_lehmer_iterate_term(m, 36) == 1294071425709804646 && lucas_lehmer_zero_free(m, 37));
    assert(lucas_lehmer_iterate_term(m, 37) == 6977904027742677752 && lucas_lehmer_zero_free(m, 38));
    assert(lucas_lehmer_iterate_term(m, 38) == 6436301484402322262 && lucas_lehmer_zero_free(m, 39));
    assert(lucas_lehmer_iterate_term(m, 39) == 4208402362869223577 && lucas_lehmer_zero_free(m, 40));
    assert(lucas_lehmer_iterate_term(m, 40) == 7335010702717380069 && lucas_lehmer_zero_free(m, 41));
    assert(lucas_lehmer_iterate_term(m, 41) == 3956981253807025747 && lucas_lehmer_zero_free(m, 42));
    assert(lucas_lehmer_iterate_term(m, 42) == 6984333854206758947 && lucas_lehmer_zero_free(m, 43));
    assert(lucas_lehmer_iterate_term(m, 43) == 6221686595162949423 && lucas_lehmer_zero_free(m, 44));
    assert(lucas_lehmer_iterate_term(m, 44) == 9063077094088609482 && lucas_lehmer_zero_free(m, 45));
    assert(lucas_lehmer_iterate_term(m, 45) == 335835509421099207 && lucas_lehmer_zero_free(m, 46));
    assert(lucas_lehmer_iterate_term(m, 46) == 257376987632623497 && lucas_lehmer_zero_free(m, 47));
    assert(lucas_lehmer_iterate_term(m, 47) == 3049498516893549121 && lucas_lehmer_zero_free(m, 48));
    assert(lucas_lehmer_iterate_term(m, 48) == 4535956980420930094 && lucas_lehmer_zero_free(m, 49));
    assert(lucas_lehmer_iterate_term(m, 49) == 2883879576679301069 && lucas_lehmer_zero_free(m, 50));
    assert(lucas_lehmer_iterate_term(m, 50) == 7135297998133607647 && lucas_lehmer_zero_free(m, 51));
    assert(lucas_lehmer_iterate_term(m, 51) == 6459153266973610975 && lucas_lehmer_zero_free(m, 52));
    assert(lucas_lehmer_iterate_term(m, 52) == 407477572601240507 && lucas_lehmer_zero_free(m, 53));
    assert(lucas_lehmer_iterate_term(m, 53) == 4449802258860325404 && lucas_lehmer_zero_free(m, 54));
    assert(lucas_lehmer_iterate_term(m, 54) == 1209825572529903870 && lucas_lehmer_zero_free(m, 55));
    assert(lucas_lehmer_iterate_term(m, 55) == 1176155952744489194 && lucas_lehmer_zero_free(m, 56));
    assert(lucas_lehmer_iterate_term(m, 56) == 1943191141858847365 && lucas_lehmer_zero_free(m, 57));
    assert(lucas_lehmer_iterate_term(m, 57) == 1090312116991908190 && lucas_lehmer_zero_free(m, 58));
    assert(lucas_lehmer_iterate_term(m, 58) == 4068563793319624216 && lucas_lehmer_zero_free(m, 59));
    assert(lucas_lehmer_iterate_term(m, 59) == 8031410355349526945 && lucas_lehmer_zero_free(m, 60));
    assert(lucas_lehmer_iterate_term(m, 60) == 3811651659490311702 && lucas_lehmer_zero_free(m, 61));
    assert(lucas_lehmer_iterate_term(m, 61) == 6275811924108737971);
}

/// For each odd `p` from 3 to 63 the walk modulo `2^p - 1` has no 0 below
/// index `p - 2`, and has one there exactly for the listed exponents.
proof fn lemma_walks(p: nat)
    requires
        3 <= p <= 63,
        p % 2 == 1,
    ensures
        lucas_lehmer_zero_free(mersenne(p), (p - 2) as nat),
        (lucas_lehmer_iterate_term(mersenne(p), (p - 2) as nat) == 0) == listed_mersenne_exponent(p),
{
    if p == 3 {
        lemma_walk_3();
    } else if p == 5 {
        lemma_walk_5();
    } else if p == 7 {
        lemma_walk_7();
    } else if p == 9 {
        lemma_walk_9();
    } else if p == 11 {
        lemma_walk_11();
    } else if p == 13 {
        lemma_walk_13();
    } else if p == 15 {
        lemma_walk_15();
    } else if p == 17 {
        lemma_walk_17();
    } else if p == 19 {
        lemma_walk_19();
    } else if p == 21 {
        lemma_walk_21();
    } else if p == 23 {
        lemma_walk_23();
    } else if p == 25 {
        lemma_walk_25();
    } else if p == 27 {
        lemma_walk_27();
    } else if p == 29 {
        lemma_walk_29();
    } else if p == 31 {
        lemma_walk_31();
    } else if p == 33 {
        lemma_walk_33();
    } else if p == 35 {
        lemma_walk_35();
    } else if p == 37 {
        lemma_walk_37();
    } else if p == 39 {
        lemma_walk_39();
    } else if p == 41 {
        lemma_walk_41();
    } else if p == 43 {
        lemma_walk_43();
    } else if p == 45 {
        lemma_walk_45();
    } else if p == 47 {
        lemma_walk_47();
    } else if p == 49 {
        lemma_walk_49();
    } else if p == 51 {
        lemma_walk_51();
    } else if p == 53 {
        lemma_walk_53();
    } else if p == 55 {
        lemma_walk_55();
    } else if p == 57 {
        lemma_walk_57();
    } else if p == 59 {
        lemma_walk_59();
    } else if p == 61 {
        lemma_walk_61();
    } else {
        assert(p == 63);
        lemma_walk_63();
    }
}

/// A number with a factor strictly between 1 and itself is not prime.
proof fn lemma_not_prime_by_factor(n: nat, f: nat)
    requires
        2 <= f < n,
        n % f == 0,
    ensures
        !prime(n),
{
}

/// For each `p <= 64` that is not listed, `2^p - 1` is not prime.
proof fn lemma_unlisted_are_composite(p: nat)
    requires
        p <= 64,
        !listed_mersenne_exponent(p),
    ensures
        !prime(mersenne(p) as nat),
{
    lemma2_to64();
    lemma2_to64_rest();
    if p <= 1 {
        assert(mersenne(p) <= 1);
    } else if p == 4 {
        lemma_not_prime_by_factor(mersenne(4) as nat, 3);
    } else if p == 6 {
        lemma_not_prime_by_factor(mersenne(6) as nat, 3);
    } else if p == 8 {
        lemma_not_prime_by_factor(mersenne(8) as nat, 3);
    } else if p == 9 {
        lemma_not_prime_by_factor(mersenne(9) as nat, 7);
    } else if p == 10 {
        lemma_not_prime_by_factor(mersenne(10) as nat, 3);
    } else if p == 11 {
        lemma_not_prime_by_factor(mersenne(11) as nat, 23);
    } else if p == 12 {
        lemma_not_prime_by_factor(mersenne(12) as nat, 3);
    } else if p == 14 {
        lemma_not_prime_by_factor(mersenne(14) as nat, 3);
    } else if p == 15 {
        lemma_not_prime_by_factor(mersenne(15) as nat, 7);
    } else if p == 16 {
        lemma_not_prime_by_factor(mersenne(16) as nat, 3);
    } else if p == 18 {
        lemma_not_prime_by_factor(mersenne(18) as nat, 3);
    } else if p == 20 {
        lemma_not_prime_by_factor(mersenne(20) as nat, 3);
    } else if p == 21 {
        lemma_not_prime_by_factor(mersenne(21) as nat, 7);
    } else if p == 22 {
        lemma_not_prime_by_factor(mersenne(22) as nat, 3);
    } else if p == 23 {
        lemma_not_prime_by_factor(mersenne(23) as nat, 47);
    } else if p == 24 {
        lemma_not_prime_by_factor(mersenne(24) as nat, 3);
    } else if p == 25 {
        lemma_not_prime_by_factor(mersenne(25) as nat, 31);
    } else if p == 26 {
        lemma_not_prime_by_factor(mersenne(26) as nat, 3);
    } else if p == 27 {
        lemma_not_prime_by_factor(mersenne(27) as nat, 7);
    } else if p == 28 {
        lemma_not_prime_by_factor(mersenne(28) as nat, 3);
    } else if p == 29 {
        lemma_not_prime_by_factor(mersenne(29) as nat, 233);
    } else if p == 30 {
        lemma_not_prime_by_factor(mersenne(30) as nat, 3);
    } else if p == 32 {
        lemma_not_prime_by_factor(mersenne(32) as nat, 3);
    } else if p == 33 {
        lemma_not_prime_by_factor(mersenne(33) as nat, 7);
    } else if p == 34 {
        lemma_not_prime_by_factor(mersenne(34) as nat, 3);
    } else if p == 35 {
        lemma_not_prime_by_factor(mersenne(35) as nat, 31);
    } else if p == 36 {
        lemma_not_prime_by_factor(mersenne(36) as nat, 3);
    } else if p == 37 {
        lemma_not_prime_by_factor(mersenne(37) as nat, 223);
    } else if p == 38 {
        lemma_not_prime_by_factor(mersenne(38) as nat, 3);
    } else if p == 39 {
        lemma_not_prime_by_factor(mersenne(39) as nat, 7);
    } else if p == 40 {
        lemma_not_prime_by_factor(mersenne(40) as nat, 3);
    } else if p == 41 {
        lemma_not_prime_by_factor(mersenne(41) as nat, 13367);
    } else if p == 42 {
        lemma_not_prime_by_factor(mersenne(42) as nat, 3);
    } else if p == 43 {
        lemma_not_prime_by_factor(mersenne(43) as nat, 431);
    } else if p == 44 {
        lemma_not_prime_by_factor(mersenne(44) as nat, 3);
    } else if p == 45 {
        lemma_not_prime_by_factor(mersenne(45) as nat, 7);
    } else if p == 46 {
        lemma_not_prime_by_factor(mersenne(46) as nat, 3);
    } else if p == 47 {
        lemma_not_prime_by_factor(mersenne(47) as nat, 2351);
    } else if p == 48 {
        lemma_not_prime_by_factor(mersenne(48) as nat, 3);
    } else if p == 49 {
        lemma_not_prime_by_factor(mersenne(49) as nat, 127);
    } else if p == 50 {
        lemma_not_prime_by_factor(mersenne(50) as nat, 3);
    } else if p == 51 {
        lemma_not_prime_by_factor(mersenne(51) as nat, 7);
    } else if p == 52 {
        lemma_not_prime_by_factor(mersenne(52) as nat, 3);
    } else if p == 53 {
        lemma_not_prime_by_factor(mersenne(53) as nat, 6361);
    } else if p == 54 {
        lemma_not_prime_by_factor(mersenne(54) as nat, 3);
    } else if p == 55 {
        lemma_not_prime_by_factor(mersenne(55) as nat, 23);
    } else if p == 56 {
        lemma_not_prime_by_factor(mersenne(56) as nat, 3);
    } else if p == 57 {
        lemma_not_prime_by_factor(mersenne(57) as nat, 7);
    } else if p == 58 {
        lemma_not_prime_by_factor(mersenne(58) as nat, 3);
    } else if p == 59 {
        lemma_not_prime_by_factor(mersenne(59) as nat, 179951);
    } else if p == 60 {
        lemma_not_prime_by_factor(mersenne(60) as nat, 3);
    } else if p == 62 {
        lemma_not_prime_by_factor(mersenne(62) as nat, 3);
    } else if p == 63 {
        lemma_not_prime_by_factor(mersenne(63) as nat, 7);
    } else {
        assert(p == 64);
        lemma_not_prime_by_factor(mersenne(64) as nat, 3);
    }
}

/// The listed exponents are prime.
proof fn lemma_listed_exponents_prime(p: nat)
    requires
        listed_mersenne_exponent(p),
    ensures
        prime(p),
{
    if !prime(p) {
        lemma_least_prime_factor(p);
        let q = choose|q: nat| #[trigger] prime(q) && p % q == 0 && q * q <= p && q < p;
        assert(2 <= q <= 7) by (nonlinear_arith)
            requires q * q <= p, p <= 61, q >= 2;
        assert(p % q != 0) by {
            if q == 2 {
                assert(p % 2 != 0 || p == 2);
            } else if q == 3 {
                assert(p % 3 != 0 || p == 3);
            } else if q == 4 {
                assert(p % 4 != 0);
            } else if q == 5 {
                assert(p % 5 != 0 || p == 5);
            } else if q == 6 {
                assert(p % 6 != 0);
            } else {
                assert(p % 7 != 0 || p == 7);
            }
        }
    }
}

/// What the two Lucas-Lehmer tests of the library answer: for each
/// `p <= 64`, [`crate::successors::is_mersenne_exp`] and
/// [`crate::iterate::lucas_lehmer`] both return whether `p` is one of 2, 3,
/// 5, 7, 13, 17, 19, 31 and 61, the exponents up to 64 of the Mersenne
/// primes. For every `p <= 64` for which they return `false`, `2^p - 1` is
/// not prime.
pub proof fn lemma_lucas_lehmer_answers(p: nat)
    requires
        p <= 64,
    ensures
        mersenne_exp_spec(p) == listed_mersenne_exponent(p),
        lucas_lehmer_spec(p) == listed_mersenne_exponent(p),
        !mersenne_exp_spec(p) ==> !prime(mersenne(p) as nat),
{
    if p >= 3 {
        if listed_mersenne_exponent(p) {
            lemma_listed_exponents_prime(p);
        }
        if prime(p) {
            assert(p % 2 != 0);
            let i = (p - 2) as nat;
            lemma_walks(p);
            assert forall|j: nat| j < i implies #[trigger] lucas_lehmer_iterate_term(mersenne(p), j) != 0 by {
                lemma_zero_free_below(mersenne(p), i, j);
            }
            lemma_lucas_lehmer_walks_agree(mersenne(p), i);
        }
    }
    if !listed_mersenne_exponent(p) {
        lemma_unlisted_are_composite(p);
    }
}

/// The two Lucas-Lehmer tests of the library agree: for every `p <= 64`,
/// [`crate::iterate::lucas_lehmer`] returns what
/// [`crate::successors::is_mersenne_exp`] returns.
pub proof fn lemma_lucas_lehmer_tests_agree(p: nat)
    requires
        p <= 64,
    ensures
        lucas_lehmer_spec(p) == mersenne_exp_spec(p),
{
    lemma_lucas_lehmer_answers(p);
}

} // verus!
