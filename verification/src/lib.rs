//! Number-theoretic sequences and tests: greatest common divisors, prime
//! generation, Collatz orbits, the Lucas-Lehmer test, continued fractions of
//! square roots, cycle detection and Miller-Rabin primality testing.
pub mod arith;
pub mod cycle;
pub mod fermat;
pub mod successors;
pub mod iterate;
pub mod utils;
pub mod mersenne;
