# numseq

Number-theoretic sequences and tests, verified with Verus.

- `src/successors.rs`: greatest common divisor, an incremental prime sieve,
  Collatz orbits, the Lucas-Lehmer test, continued fractions of square roots,
  and the cycle detection algorithms of Floyd and Brent. The sequences are
  generators with a `next` method.
- `src/iterate.rs`: the greatest common divisor, the Lucas-Lehmer test and
  Collatz orbits computed over `itertools::iterate`.
- `src/utils.rs`: modular exponentiation, the strong probable prime test and
  the deterministic Miller-Rabin test for `u32`, and the unfolding generators.
- `src/mersenne.rs`: the Lucas-Lehmer walks modulo `2^p - 1` for `p <= 64`,
  evaluated term by term, and factors of the composite `2^p - 1`: the two
  Lucas-Lehmer tests answer exactly for the exponents of the Mersenne primes.
- `src/arith.rs`, `src/cycle.rs`, `src/fermat.rs`: the mathematics the
  contracts are stated in (divisibility, primes, the gcd; orbits, tails and
  cycles; binomial coefficients and Fermat's little theorem).
- `app/`: the program, and the two never-ending itertools sequences (primes
  and continued fractions) built on the library's verified steps.
