use performance_test_rs::hashing::HasherPair;

#[test]
fn secondary_step_is_never_zero() {
    let seeds = [0u64, 1, 42, u64::MAX, 0x9E37_79B9_7F4A_7C15];
    let keys = [0u64, 1, 2, 31, 1000, u64::MAX, u64::MAX - 1, 1 << 62];
    for seed in seeds {
        let pair = HasherPair::new(seed);
        for key in keys {
            assert_ne!(pair.secondary(key), 0);
        }
    }
}

#[test]
fn hashes_are_pure_functions_of_seed_and_key() {
    let a = HasherPair::new(7);
    let b = HasherPair::new(7);
    for key in [0u64, 5, 999, u64::MAX] {
        assert_eq!(a.primary(key), b.primary(key));
        assert_eq!(a.secondary(key), b.secondary(key));
    }
}

#[test]
fn secondary_step_derives_from_the_primary_hash() {
    let pair = HasherPair::new(123);
    for key in [0u64, 17, 4096] {
        let h = pair.primary(key);
        assert_eq!(pair.secondary(key), (h << 2).wrapping_add(1));
    }
}

#[test]
fn primary_hash_has_an_exact_known_value() {
    let pair = HasherPair::new(0);
    let x = 1000u64;
    assert_eq!(pair.primary(1000), x ^ (x >> 31));
}
