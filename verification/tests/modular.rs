use streamchat::modular::{mod_pow, MAX_MODULUS};

const P: u128 = 0xD87FA3E291B4C7F3;

#[test]
fn zero_exponent_gives_one() {
    assert_eq!(mod_pow(0, 0, 2), 1);
    assert_eq!(mod_pow(5, 0, 7), 1);
    assert_eq!(mod_pow(123456789, 0, P), 1);
    assert_eq!(mod_pow(u128::MAX, 0, MAX_MODULUS), 1);
}

#[test]
fn zero_exponent_with_modulus_one_gives_one() {
    assert_eq!(mod_pow(7, 0, 1), 1);
}

#[test]
fn positive_exponent_with_modulus_one_gives_zero() {
    assert_eq!(mod_pow(10, 18, 1), 0);
}

#[test]
fn small_powers() {
    assert_eq!(mod_pow(2, 10, 1000), 24);
    assert_eq!(mod_pow(3, 200, 13), 9);
    assert_eq!(mod_pow(5, 117, 19), 1);
    assert_eq!(mod_pow(2, 1, 3), 2);
    assert_eq!(mod_pow(0, 5, 7), 0);
}

#[test]
fn base_is_reduced_first() {
    assert_eq!(mod_pow(1000 + 2, 10, 1000), 24);
    assert_eq!(mod_pow(u128::MAX, 1, 2), 1);
}

#[test]
fn powers_under_the_standard_modulus() {
    assert_eq!(mod_pow(2, 1000, P), 6586657111888480069);
    assert_eq!(mod_pow(2, 99999, P), 5367349257865880427);
}

#[test]
fn products_near_the_top_of_128_bits() {
    let m: u128 = (1u128 << 64) - 59;
    let x: u128 = (1u128 << 64) - 1;
    assert_eq!(mod_pow(x, x, m), 4959809447704153900);
}

#[test]
fn largest_modulus() {
    assert_eq!(mod_pow(3, 5, MAX_MODULUS), 243);
    assert_eq!(mod_pow(12345678901234567890, 98765432109876543210, MAX_MODULUS), 0);
}

#[test]
fn order_of_exponents_does_not_matter() {
    let pairs: [(u128, u128); 4] = [(1000, 99999), (12345, 54321), (1000, 1000), (31337, 4242)];
    for (a, b) in pairs {
        let left = mod_pow(mod_pow(2, a, P) as u128, b, P);
        let right = mod_pow(mod_pow(2, b, P) as u128, a, P);
        assert_eq!(left, right);
    }
}
