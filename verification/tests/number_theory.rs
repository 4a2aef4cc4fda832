use numeric_utilities::factorial::factorial;
use numeric_utilities::factorial::factorial_iterative;
use numeric_utilities::gcd::gcd;
use numeric_utilities::primality::is_prime;

#[test]
fn gcd_of_48_and_18_is_6() {
    assert_eq!(gcd(48, 18), 6);
}

#[test]
fn gcd_with_zero_returns_other_argument() {
    assert_eq!(gcd(7, 0), 7);
    assert_eq!(gcd(0, 7), 7);
    assert_eq!(gcd(0, 0), 0);
}

#[test]
fn gcd_is_symmetric_on_samples() {
    assert_eq!(gcd(48, 18), gcd(18, 48));
    assert_eq!(gcd(100, 75), gcd(75, 100));
    assert_eq!(gcd(1, 999), gcd(999, 1));
    assert_eq!(gcd(36, 36), gcd(36, 36));
}

#[test]
fn gcd_of_coprime_numbers_is_1() {
    assert_eq!(gcd(17, 13), 1);
    assert_eq!(gcd(8, 9), 1);
}

#[test]
fn factorial_small_values() {
    assert_eq!(factorial(0), 1);
    assert_eq!(factorial(1), 1);
    assert_eq!(factorial(5), 120);
}

#[test]
fn factorial_largest_input_fits() {
    assert_eq!(factorial(20), 2432902008176640000);
    assert_eq!(factorial_iterative(20), 2432902008176640000);
}

#[test]
fn factorial_forms_agree_on_all_allowed_inputs() {
    let mut n: u64 = 0;
    while n <= 20 {
        assert_eq!(factorial(n), factorial_iterative(n));
        n += 1;
    }
}

#[test]
fn is_prime_boundary_values() {
    assert!(!is_prime(0));
    assert!(!is_prime(1));
    assert!(is_prime(2));
    assert!(is_prime(3));
    assert!(!is_prime(9));
    assert!(is_prime(17));
}

#[test]
fn is_prime_rejects_even_numbers_above_2() {
    assert!(!is_prime(4));
    assert!(!is_prime(100));
}

#[test]
fn is_prime_rejects_squares_of_primes() {
    assert!(!is_prime(25));
    assert!(!is_prime(49));
    assert!(!is_prime(121));
}

#[test]
fn is_prime_accepts_larger_primes() {
    assert!(is_prime(97));
    assert!(is_prime(7919));
    assert!(is_prime(1000000007));
}

#[test]
fn is_prime_rejects_larger_composites() {
    assert!(!is_prime(7917));
    assert!(!is_prime(1000000007 * 2));
    assert!(!is_prime(u64::MAX));
}
