use numseq::utils::{is_prime, is_strong_probable_prime, mod_pow, NumError};

fn naive_pow_mod(mut base: u64, mut exp: u64, modulo: u64) -> u64 {
    let mut res = 1 % modulo;
    base %= modulo;

    while exp > 0 {
        if exp & 1 == 1 {
            res = (res * base) % modulo;
        }
        base = (base * base) % modulo;
        exp >>= 1;
    }

    res
}

#[test]
fn test_pow_mod() {
    assert!(mod_pow(0, 0, 0).is_err());
    assert_eq!(mod_pow(0, 0, 1).unwrap(), 0);
    assert_eq!(mod_pow(0, 0, 7).unwrap(), 1);
    assert_eq!(mod_pow(5, 1, 7).unwrap(), 5);
    assert_eq!(mod_pow(5, 2, 1).unwrap(), 0);
    assert_eq!(mod_pow(2, 10, 1000).unwrap(), 1024 % 1000);
    assert_eq!(mod_pow(3, 0, 5).unwrap(), 1);
    assert_eq!(mod_pow(0, 5, 7).unwrap(), 0);
    assert_eq!(mod_pow(1, 999, 13).unwrap(), 1);
    assert_eq!(mod_pow(2, 3, 5).unwrap(), 3);
    assert_eq!(mod_pow(0, 0, 1).unwrap(), 0);
    assert_eq!(mod_pow(3, 4, 7).unwrap(), 4);
    assert_eq!(mod_pow(5, 3, 13).unwrap(), 8);
    assert_eq!(mod_pow(7, 0, 11).unwrap(), 1);
    assert_eq!(mod_pow(0, 5, 10).unwrap(), 0);
    assert_eq!(mod_pow(0, 0, 10).unwrap(), 1);
    assert_eq!(mod_pow(5, 3, 1).unwrap(), 0);
    assert_eq!(mod_pow(10, 2, 3).unwrap(), 1);
    assert_eq!(mod_pow(14, 3, 5).unwrap(), 4);
    assert_eq!(mod_pow(2, 1_000_000, 13).unwrap(), 3);
    assert_eq!(mod_pow(3, 1_000_000_000, 17).unwrap(), 1);
    assert_eq!(mod_pow(123_456_789, 987_654_321, 1_000_000_007).unwrap(), 652_541_198);
    assert_eq!(mod_pow(4_294_967_295, 2, 4_294_967_291).unwrap(), 16);
    assert!(mod_pow(5, 10, 0).is_err());
    assert_eq!(mod_pow(10, 10, 2).unwrap(), 0);
    assert_eq!(mod_pow(10, 10, 3).unwrap(), 1);
    assert_eq!(mod_pow(123, 456, 97).unwrap(), naive_pow_mod(123, 456, 97) as u32);
    assert_eq!(mod_pow(2, 20, 1_000).unwrap(), naive_pow_mod(2, 20, 1_000) as u32);
    assert_eq!(mod_pow(7, 31, 1_000_000_007).unwrap(), naive_pow_mod(7, 31, 1_000_000_007) as u32);
    assert_eq!(mod_pow(12345, 6, 97).unwrap(), naive_pow_mod(12345, 6, 97) as u32);
    assert_eq!(mod_pow(99991, 12345, 1_000_000_007).unwrap(), naive_pow_mod(99991, 12345, 1_000_000_007) as u32);
}

#[test]
fn test_is_prime() {
    assert!(!is_prime(0));

    // A000040
    let primes = [
        2, 3, 5, 7, 11, 13, 17, 19, 23, 29, 31, 37, 41, 43, 47, 53, 59, 61, 67, 71, 73, 79, 83, 89,
        97, 101, 103, 107, 109, 113, 127, 131, 137, 139, 149, 151, 157, 163, 167, 173, 179, 181,
        191, 193, 197, 199, 211, 223, 227, 229, 233, 239, 241, 251, 257, 263, 269, 271,
    ];
    // A018252
    let odd_composites = [
        1, 4, 6, 8, 9, 10, 12, 14, 15, 16, 18, 20, 21, 22, 24, 25, 26, 27, 28, 30, 32, 33, 34, 35,
        36, 38, 39, 40, 42, 44, 45, 46, 48, 49, 50, 51, 52, 54, 55, 56, 57, 58, 60, 62, 63, 64, 65,
        66, 68, 69, 70, 72, 74, 75, 76, 77, 78, 80, 81, 82, 84, 85, 86, 87, 88,
    ];

    for p in primes {
        assert!(is_prime(p));
    }
    for c in odd_composites {
        assert!(!is_prime(c));
    }
}

#[test]
fn test_is_strong_probable_prime() {
    assert!(is_strong_probable_prime(3, 2) == Ok(true));
    assert!(is_strong_probable_prime(5, 2) == Ok(true));

    assert!(is_strong_probable_prime(3, 3).is_err());
    assert!(is_strong_probable_prime(5, 5).is_err());

    assert!(is_strong_probable_prime(3, 1).is_err());
    assert!(is_strong_probable_prime(1, 2).is_err());
    assert!(is_strong_probable_prime(2, 2).is_err());

    // A000040
    let primes = [
        19, 23, 29, 31, 37, 41, 43, 47, 53, 59, 61, 67, 71, 73, 79, 83, 89, 97, 101, 103, 107, 109,
        113, 127, 131, 137, 139, 149, 151, 157, 163, 167, 173, 179, 181, 191, 193, 197, 199, 211,
        223, 227, 229, 233, 239, 241, 251, 257, 263, 269, 271,
    ];
    // A071904
    let odd_composites = [
        15, 21, 25, 27, 33, 35, 39, 45, 49, 51, 55, 57, 63, 65, 69, 75, 77, 81, 85, 87, 93, 95, 99,
        105, 111, 115, 117, 119, 123, 125, 129, 133, 135, 141, 143, 147, 153, 155, 159, 161, 165,
        169, 171, 175, 177, 183, 185, 187, 189, 195, 201, 203, 205,
    ];

    // A001262
    let sp2 = [
        2047, 3277, 4033, 4681, 8321, 15841, 29341, 42799, 49141, 52633, 65281, 74665, 80581, 85489,
        88357, 90751, 104_653, 130_561, 196_093, 220_729, 233_017, 252_601, 253_241, 256_999,
        271_951, 280_601, 314_821, 357_761, 390_937, 458_989, 476_971, 486_737,
    ];
    // A020229
    let sp3 = [
        703, 1891, 3281, 8401, 8911, 10585, 12403, 16531, 18721, 19345, 23521, 31621, 44287, 47197,
        55969, 63139, 74593, 79003, 82513, 87913, 88573, 97567, 105_163, 111_361, 112_141, 148_417,
        152_551, 182_527, 188_191, 211_411, 218_791, 221_761, 226_801,
    ];
    // A020230
    let sp4 = [
        341, 1387, 2047, 3277, 4033, 4371, 4681, 5461, 8321, 8911, 10261, 13747, 14491, 15709,
        15841, 19951, 29341, 31621, 42799, 49141, 49981, 52633, 60787, 65077, 65281, 74665, 80581,
        83333, 85489, 88357, 90751, 104_653, 123_251, 129_921, 130_561, 137_149,
    ];
    // A020231
    let sp5 = [
        781, 1541, 5461, 5611, 7813, 13021, 14981, 15751, 24211, 25351, 29539, 38081, 40501, 44801,
        53971, 79381, 100_651, 102_311, 104_721, 112_141, 121_463, 133_141, 141_361, 146_611,
        195_313, 211_951, 216_457, 222_301, 251_521, 289_081, 290_629, 298_271, 315_121,
    ];
    // A020232
    let sp6 = [
        217, 481, 1111, 1261, 2701, 3589, 5713, 6533, 11041, 14701, 20017, 29341, 34441, 39493,
        43621, 46657, 46873, 49141, 49661, 58969, 74023, 74563, 76921, 83333, 87061, 92053, 94657,
        94697, 97751, 97921, 109_061, 115_921, 125_563, 128_627, 151_387, 173_377,
    ];
    // A020243
    let sp17 = [
        781, 1111, 2821, 4033, 4187, 5365, 5833, 6697, 7171, 15805, 19729, 21781, 22791, 24211,
        26245, 31621, 33001, 33227, 34441, 35371, 38081, 42127, 49771, 71071, 74665, 77293, 78881,
        88831, 96433, 97921, 98671, 101_101, 102_311, 125_563, 129_493,
    ];

    for p in primes {
        for a in [2, 3, 4, 5, 6, 17] {
            assert!(is_strong_probable_prime(p, a) == Ok(true));
        }
    }
    for c in odd_composites {
        for a in [2, 3, 4, 5, 6, 17] {
            assert!(is_strong_probable_prime(c, a) != Ok(true));
        }
    }

    for sp in sp2 {
        assert!(is_strong_probable_prime(sp, 2) == Ok(true));
    }
    for sp in sp3 {
        assert!(is_strong_probable_prime(sp, 3) == Ok(true));
    }
    for sp in sp4 {
        assert!(is_strong_probable_prime(sp, 4) == Ok(true));
    }
    for sp in sp5 {
        assert!(is_strong_probable_prime(sp, 5) == Ok(true));
    }
    for sp in sp6 {
        assert!(is_strong_probable_prime(sp, 6) == Ok(true));
    }
    for sp in sp17 {
        assert!(is_strong_probable_prime(sp, 17) == Ok(true));
    }
}

#[test]
fn strong_probable_prime_errors() {
    assert_eq!(is_strong_probable_prime(9, 1), Err(NumError::InvalidA));
    assert_eq!(is_strong_probable_prime(9, 9), Err(NumError::InvalidA));
    assert_eq!(is_strong_probable_prime(10, 3), Err(NumError::InvalidN));
    assert_eq!(is_strong_probable_prime(2, 5), Err(NumError::InvalidN));
    assert_eq!(mod_pow(3, 4, 0), Err(NumError::ZeroModulo));
}
