//! Modular exponentiation by repeated squaring.

use vstd::arithmetic::div_mod::{lemma_mul_mod_noop_general, lemma_small_mod};
use vstd::arithmetic::power::{
    lemma1_pow, lemma_pow0, lemma_pow1, lemma_pow_adds, lemma_pow_mod_noop,
    lemma_pow_multiplies, lemma_square_is_pow2, pow,
};
use vstd::prelude::*;

verus! {

/// The largest modulus for which the product of two reduced values still fits
/// in 128 bits: two to the power of 64.
pub const MAX_MODULUS: u128 = 0x1_0000_0000_0000_0000;

/// `base` raised to `exp`, reduced modulo `modulus`.
///
/// An exponent of zero gives one whatever the modulus, so the value is one
/// (and not zero) in the degenerate case of modulus one and exponent zero.
pub open spec fn mod_pow_spec(base: int, exp: nat, modulus: int) -> int {
    if exp == 0 {
        1
    } else {
        pow(base, exp) % modulus
    }
}

/// Raising to the power zero gives one, for every base and every modulus
/// above one.
pub proof fn lemma_mod_pow_zero_exponent(base: int, modulus: int)
    requires
        modulus > 1,
    ensures
        mod_pow_spec(base, 0, modulus) == 1,
{
}

/// A modular power is a residue: it lies below every modulus above one.
pub proof fn lemma_mod_pow_range(base: int, exp: nat, modulus: int)
    requires
        modulus > 1,
    ensures
        0 <= mod_pow_spec(base, exp, modulus) < modulus,
{
}

/// Raising first to `a` and then to `b` gives the same residue as raising
/// first to `b` and then to `a`: both are `base^(a*b)` modulo `modulus`.
pub proof fn lemma_mod_pow_commutes(base: int, a: nat, b: nat, modulus: int)
    requires
        modulus > 1,
    ensures
        mod_pow_spec(mod_pow_spec(base, a, modulus), b, modulus) == mod_pow_spec(
            mod_pow_spec(base, b, modulus),
            a,
            modulus,
        ),
{
    if a == 0 || b == 0 {
        lemma1_pow(a);
        lemma1_pow(b);
        lemma_small_mod(1, modulus as nat);
    } else {
        lemma_pow_mod_noop(pow(base, a), b, modulus);
        lemma_pow_mod_noop(pow(base, b), a, modulus);
        lemma_pow_multiplies(base, a, b);
        lemma_pow_multiplies(base, b, a);
        assert(a * b == b * a) by (nonlinear_arith);
    }
}

/// One round of square-and-multiply keeps the value of
/// `acc * base^exp` modulo `m`.
proof fn lemma_square_and_multiply(acc: int, base: int, exp: nat, m: int)
    requires
        exp > 0,
        m > 0,
    ensures
        ({
            let acc2 = if exp % 2 == 1 {
                (acc * base) % m
            } else {
                acc
            };
            let base2 = (base * base) % m;
            (acc2 * pow(base2, exp / 2)) % m == (acc * pow(base, exp)) % m
        }),
{
    let half: nat = exp / 2;
    let odd: nat = exp % 2;
    let square = base * base;
    let base2 = square % m;
    let acc2 = if odd == 1 {
        (acc * base) % m
    } else {
        acc
    };
    // base^exp == (base^2)^half * base^odd
    assert(exp == 2 * half + odd);
    lemma_pow_adds(base, 2 * half, odd);
    lemma_pow_multiplies(base, 2, half);
    lemma_square_is_pow2(base);
    assert(pow(base, exp) == pow(square, half) * pow(base, odd));
    // squaring may be reduced before it is raised
    lemma_pow_mod_noop(square, half, m);
    lemma_mul_mod_noop_general(acc2, pow(base2, half), m);
    lemma_mul_mod_noop_general(acc2, pow(square, half), m);
    assert((acc2 * pow(base2, half)) % m == (acc2 * pow(square, half)) % m);
    if odd == 1 {
        lemma_pow1(base);
        lemma_mul_mod_noop_general(acc * base, pow(square, half), m);
        assert((acc * base) * pow(square, half) == acc * (pow(square, half) * base))
            by (nonlinear_arith);
    } else {
        lemma_pow0(base);
        assert(pow(square, half) * 1 == pow(square, half));
    }
}

/// Computes `base^exp mod modulus` by binary exponentiation.
///
/// All intermediate products are formed in 128 bits, which is wide enough for
/// every modulus up to [`MAX_MODULUS`], and so for every 64-bit modulus.
pub fn mod_pow(base: u128, exp: u128, modulus: u128) -> (result: u64)
    requires
        0 < modulus <= MAX_MODULUS,
    ensures
        result as int == mod_pow_spec(base as int, exp as nat, modulus as int),
        exp == 0 ==> result == 1,
        modulus > 1 ==> result < modulus,
{
    let ghost base0 = base as int;
    let ghost exp0 = exp as nat;
    let ghost m = modulus as int;
    let mut result: u128 = 1;
    let mut base: u128 = base % modulus;
    let mut exp: u128 = exp;
    proof {
        lemma_pow_mod_noop(base0, exp0, m);
        assert(1 * pow(base as int, exp0) == pow(base as int, exp0));
    }
    while exp > 0
        invariant
            0 < modulus <= MAX_MODULUS,
            m == modulus as int,
            base < modulus,
            exp <= exp0,
            result < modulus || (result == 1 && (exp > 0 || exp0 == 0)),
            exp0 == 0 ==> result == 1,
            (result as int * pow(base as int, exp as nat)) % m == pow(base0, exp0) % m,
        decreases exp,
    {
        proof {
            lemma_square_and_multiply(result as int, base as int, exp as nat, m);
            assert(result * base < MAX_MODULUS * MAX_MODULUS) by (nonlinear_arith)
                requires
                    result < MAX_MODULUS,
                    base < MAX_MODULUS,
            ;
            assert(base * base < MAX_MODULUS * MAX_MODULUS) by (nonlinear_arith)
                requires
                    base < MAX_MODULUS,
            ;
        }
        if exp % 2 == 1 {
            result = (result * base) % modulus;
        }
        base = (base * base) % modulus;
        exp = exp / 2;
    }
    proof {
        if exp0 > 0 {
            lemma_pow0(base as int);
            assert(result as int * 1 == result as int);
            lemma_small_mod(result as nat, modulus as nat);
        }
    }
    result as u64
}

} // verus!
