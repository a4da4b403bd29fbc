use numseq::iterate;
use numseq::successors;
use numseq::utils::{is_prime, mod_pow, unfold, unfold_ref};

#[test]
fn gcd_divides_both_and_is_largest() {
    for (a, b) in [(1071u32, 462u32), (48, 18), (0, 9), (12, 0), (17, 5), (360, 84)] {
        let g = successors::gcd(a, b);
        assert_eq!(g, iterate::gcd(a, b));
        assert_eq!(g, successors::gcd(b, a));
        assert!(g > 0);
        assert_eq!(a % g, 0);
        assert_eq!(b % g, 0);
        for d in 1..=a.max(b) {
            if a % d == 0 && b % d == 0 {
                assert_eq!(g % d, 0);
                assert!(d <= g);
            }
        }
    }
    assert_eq!(successors::gcd(0, 0), 0);
    assert_eq!(iterate::gcd(0, 0), 0);
    assert_eq!(successors::gcd(u32::MAX, u32::MAX - 1), 1);
    assert_eq!(iterate::gcd(4_294_967_294, 2_147_483_647), 2_147_483_647);
}

#[test]
fn primes_come_in_order_without_gaps() {
    let mut g = successors::primes();
    let mut last = 1u32;
    for _ in 0..500 {
        let p = g.next().unwrap();
        assert!(p > last);
        for k in (last + 1)..p {
            assert!(!is_prime(k));
        }
        assert!(is_prime(p));
        last = p;
    }
    assert_eq!(last, 3571);
}

#[test]
fn sieve_step_marks_each_number() {
    let mut g = successors::primes();
    let expected = [(3u32, true), (4, false), (5, true), (6, false), (7, true), (8, false), (9, false), (10, false), (11, true)];
    for e in expected {
        assert_eq!(g.step(), Some(e));
    }
    assert_eq!(g.next(), Some(13));
}

#[test]
fn every_prime_passes_miller_rabin() {
    let mut g = successors::primes();
    for _ in 0..2000 {
        let p = g.next().unwrap();
        assert!(is_prime(p));
    }
    assert!(is_prime(4_294_967_291));
    assert!(is_prime(2_147_483_647));
    assert!(!is_prime(4_294_967_295));
    assert!(!is_prime(3_215_031_751));
}

#[test]
fn collatz_stops_after_one() {
    let mut g = successors::collatz(1);
    assert_eq!(g.next(), Some(1));
    assert_eq!(g.next(), None);
    assert_eq!(g.next(), None);

    let mut g = successors::collatz(0);
    assert_eq!(g.next(), Some(0));
    assert_eq!(g.next(), None);

    assert_eq!(iterate::collatz(1), vec![1]);
    assert_eq!(iterate::collatz(0), vec![0]);
    assert_eq!(iterate::collatz(8), vec![8, 4, 2, 1]);
}

#[test]
fn collatz_reports_an_overflowing_step() {
    let g = successors::collatz(3_000_000_001);
    assert!(!g.next_fits());
    let g = successors::collatz(1_431_655_765);
    assert!(!g.next_fits());
    let g = successors::collatz(1_431_655_764);
    assert!(g.next_fits());
    let g = successors::collatz(4_000_000_000);
    assert!(g.next_fits());
}

#[test]
fn square_roots_of_squares_stop_at_once() {
    for k in [0u32, 1, 2, 3, 10, 255, 65535] {
        let mut g = successors::conti_frac_sqrt(k * k);
        assert_eq!(g.next(), Some(k));
        assert_eq!(g.next(), None);
        assert_eq!(g.next(), None);
    }
}

#[test]
fn square_roots_of_non_squares_go_on() {
    for n in [2u32, 3, 61, 94, 4_294_967_295, 4_294_836_226] {
        let mut g = successors::conti_frac_sqrt(n);
        let a0 = g.next().unwrap();
        assert_eq!(a0, n.isqrt());
        for _ in 0..1000 {
            let a = g.next().unwrap();
            assert!(1 <= a && a <= 2 * a0);
        }
    }
    // sqrt(61) = [7; 1, 4, 3, 1, 2, 2, 1, 3, 4, 1, 14]
    let mut g = successors::conti_frac_sqrt(61);
    let first: Vec<u32> = (0..12).map(|_| g.next().unwrap()).collect();
    assert_eq!(first, vec![7, 1, 4, 3, 1, 2, 2, 1, 3, 4, 1, 14]);
}

#[test]
fn conti_frac_states() {
    assert!(successors::conti_frac_state_valid(10, 3, ((0, 1), 3)));
    assert_eq!(successors::conti_frac_next(10, 3, ((0, 1), 3)), Some(((3, 1), 6)));
    assert_eq!(successors::conti_frac_next(10, 3, ((3, 1), 6)), Some(((3, 1), 6)));
    assert_eq!(successors::conti_frac_next(9, 3, ((0, 1), 3)), None);
    assert!(!successors::conti_frac_state_valid(10, 4, ((0, 1), 4)));
    assert!(!successors::conti_frac_state_valid(10, 3, ((0, 0), 3)));
    assert!(!successors::conti_frac_state_valid(10, 3, ((0, 1), 2)));
}

#[test]
fn lucas_lehmer_walks_agree() {
    for p in 0u8..=64 {
        assert_eq!(successors::is_mersenne_exp(p), iterate::lucas_lehmer(p));
    }
    assert!(successors::is_mersenne_exp(2));
    assert!(!successors::is_mersenne_exp(0));
    assert!(!successors::is_mersenne_exp(1));
    assert!(!successors::is_mersenne_exp(4));
    assert!(!successors::is_mersenne_exp(64));
}

#[test]
fn cycle_detectors_agree() {
    let square_mod = |x: &u64| (x * x + 1) % 1009;
    for x0 in [0u64, 2, 5, 100, 1008] {
        let f = successors::detect_cycle_floyd(&x0, &square_mod);
        let b = successors::detect_cycle_brent(&x0, &square_mod);
        assert_eq!(f, b);
        // the value at mu comes back after lambda steps, and not before
        let mut x = x0;
        for _ in 0..f.0 {
            x = square_mod(&x);
        }
        let start = x;
        for k in 1..=f.1 {
            x = square_mod(&x);
            assert_eq!(x == start, k == f.1);
        }
    }
    let id = |x: &i32| *x;
    assert_eq!(successors::detect_cycle_floyd(&7, &id), (0, 1));
    assert_eq!(successors::detect_cycle_brent(&7, &id), (0, 1));
}

#[test]
fn mod_pow_formula() {
    assert_eq!(mod_pow(2, 31, 0xffff_ffff), Ok(2_147_483_648));
    assert_eq!(mod_pow(u32::MAX, u32::MAX, u32::MAX), Ok(0));
    assert_eq!(mod_pow(3, 5, 1), Ok(0));
    assert_eq!(mod_pow(7, 3, 1000), Ok(343));
}

#[test]
fn unfold_generators() {
    let mut u = unfold(0u32, |x: u32| if x < 3 { Some((x * 10, x + 1)) } else { None });
    assert_eq!(u.next(), Some(0));
    assert_eq!(u.next(), Some(10));
    assert_eq!(u.next(), Some(20));
    assert_eq!(u.next(), None);
    assert_eq!(u.next(), None);

    let halve = |x: &u32| if *x != 0 { Some((*x % 2 == 1, *x / 2)) } else { None };
    let mut bits = unfold_ref(&6u32, &halve);
    assert_eq!(bits.next(), Some(false));
    assert_eq!(bits.next(), Some(true));
    assert_eq!(bits.next(), Some(true));
    assert_eq!(bits.next(), None);
}

#[test]
fn floyd_from_next_value() {
    let f = |x: &u64| (x * x + 1) % 1009;
    for x0 in [0u64, 2, 5, 100, 1008] {
        let (mu, lambda) = successors::detect_cycle_floyd(&x0, &f);
        assert_eq!(successors::detect_cycle_floyd(&f(&x0), &f), (mu.saturating_sub(1), lambda));
        assert_eq!(successors::detect_cycle_brent(&f(&x0), &f), (mu.saturating_sub(1), lambda));
    }
}

#[test]
fn unfold_ref_matches_unfold() {
    let step = |b: &u32| if *b != 0 { Some((*b, *b - 1)) } else { None };
    let mut by_ref = unfold_ref(&3u32, &step);
    let mut by_value = unfold(3u32, |b: u32| step(&b));
    for expected in [Some(3), Some(2), Some(1), None, None] {
        assert_eq!(by_ref.next(), expected);
        assert_eq!(by_value.next(), expected);
    }
}

#[test]
fn collatz_generator_matches_itertools_orbit() {
    for n in [0u32, 1, 2, 6, 7, 27, 97, 871] {
        let mut g = successors::collatz(n);
        let mut from_generator = Vec::new();
        while let Some(x) = g.next() {
            from_generator.push(x);
        }
        assert_eq!(from_generator, iterate::collatz(n));
    }
}

#[test]
fn conti_frac_states_are_those_of_the_root() {
    // In a state (m, d, a): a * d - m <= sqrt(n) < (a + 1) * d - m, and the
    // next state (m', d', a') has m' = a * d - m and d * d' = n - m'^2.
    for n in [2u32, 3, 7, 23, 61, 94, 1000, 4_294_967_295] {
        let a0 = n.isqrt();
        let mut st = ((0u32, 1u32), a0);
        for _ in 0..200 {
            assert!(successors::conti_frac_state_valid(n, a0, st));
            let ((m, d), a) = st;
            let (m, d, a, n64) = (m as u64, d as u64, a as u64, n as u64);
            let low = a * d - m;
            let high = (a + 1) * d - m;
            assert!(low * low <= n64 && n64 < high * high);
            let next = successors::conti_frac_next(n, a0, st).unwrap();
            let ((m2, d2), _) = next;
            assert_eq!(m2 as u64, low);
            assert_eq!(d * d2 as u64, n64 - low * low);
            st = next;
        }
    }
}

#[test]
fn conti_frac_states_come_back() {
    // sqrt(23) = [4; 1, 3, 1, 8]: the state after 1 step comes back after 4.
    let mut states = vec![((0u32, 1u32), 4u32)];
    for _ in 0..9 {
        let next = successors::conti_frac_next(23, 4, *states.last().unwrap()).unwrap();
        states.push(next);
    }
    let quotients: Vec<u32> = states.iter().map(|s| s.1).collect();
    assert_eq!(quotients, vec![4, 1, 3, 1, 8, 1, 3, 1, 8, 1]);
    for i in 1..6 {
        assert_eq!(states[i], states[i + 4]);
    }
    // the state at index 1 comes back, within (a0 + 1) * (n + 1) steps, and
    // the state just before its return is (a0, 1, 2 * a0)
    for n in [2u32, 3, 13, 61, 94, 421, 9_999, 1_000_003] {
        let a0 = n.isqrt();
        let bound = ((a0 as u64 + 1) * (n as u64 + 1)) as usize;
        let first = successors::conti_frac_next(n, a0, ((0u32, 1u32), a0)).unwrap();
        let mut st = first;
        let mut k = 0usize;
        loop {
            let next = successors::conti_frac_next(n, a0, st).unwrap();
            k += 1;
            if next == first {
                break;
            }
            assert_ne!(st, ((a0, 1), 2 * a0));
            st = next;
            assert!(k <= bound);
        }
        assert_eq!(st, ((a0, 1), 2 * a0));
    }
}

#[test]
fn conti_frac_root_floor_at_the_edges() {
    for (n, root) in [(0u32, 0u32), (1, 1), (3, 1), (4, 2), (65_535 * 65_535 - 1, 65_534), (65_535 * 65_535, 65_535), (u32::MAX, 65_535)] {
        assert_eq!(successors::conti_frac_sqrt(n).next(), Some(root));
    }
}

#[test]
fn collatz_checked_matches_or_refuses() {
    for n in [0u32, 1, 2, 6, 7, 27, 97, 871, 4_000_000_000] {
        assert_eq!(iterate::collatz_checked(n), Some(iterate::collatz(n)));
    }
    assert_eq!(iterate::collatz_checked(6), Some(vec![6, 3, 10, 5, 16, 8, 4, 2, 1]));
    // an odd value whose step overflows, at once or after a halving
    assert_eq!(iterate::collatz_checked(3_000_000_001), None);
    assert_eq!(iterate::collatz_checked(1_431_655_765), None);
    assert_eq!(iterate::collatz_checked(2_863_311_530), None);
}

#[test]
fn mersenne_exponents_up_to_64() {
    let listed = [2u8, 3, 5, 7, 13, 17, 19, 31, 61];
    for p in 0u8..=64 {
        let expected = listed.contains(&p);
        assert_eq!(successors::is_mersenne_exp(p), expected);
        assert_eq!(iterate::lucas_lehmer(p), expected);
        if !expected && p >= 2 {
            // 2^p - 1 has a factor below itself
            let m = (1u128 << p) - 1;
            let mut f = 2u128;
            while f * f <= m && m % f != 0 {
                f += 1;
            }
            assert!(f * f <= m, "2^{p} - 1 has no small factor");
        }
    }
}
