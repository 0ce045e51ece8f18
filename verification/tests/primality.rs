use prime_spiral::is_prime;

#[test]
fn classifies_small_numbers() {
    assert!(!is_prime(0));
    assert!(!is_prime(1));
    assert!(is_prime(2));
    assert!(is_prime(3));
    assert!(!is_prime(4));
    assert!(is_prime(5));
    assert!(!is_prime(6));
    assert!(is_prime(7));
    assert!(!is_prime(8));
    assert!(!is_prime(9));
    assert!(!is_prime(10));
    assert!(is_prime(17));
}

#[test]
fn rejects_odd_perfect_squares() {
    assert!(!is_prime(9));
    assert!(!is_prime(25));
    assert!(!is_prime(49));
    assert!(!is_prime(121));
    assert!(!is_prime(10201));
}

#[test]
fn classifies_larger_numbers() {
    assert!(is_prime(7919));
    assert!(!is_prime(7917));
    assert!(is_prime(104729));
    assert!(!is_prime(104730));
    assert!(is_prime(65537));
    assert!(!is_prime(65536));
}

#[test]
fn classifies_extreme_values() {
    assert!(is_prime(4294967291));
    assert!(!is_prime(4294967295));
    assert!(!is_prime(4294967293));
}

#[test]
fn is_deterministic() {
    for n in 0..1000u32 {
        assert_eq!(is_prime(n), is_prime(n));
    }
}
