//! Modular exponentiation by square-and-multiply.

use vstd::arithmetic::div_mod::{lemma_mul_mod_noop_general, lemma_small_mod};
use vstd::arithmetic::mul::{lemma_mul_is_associative, lemma_mul_is_commutative};
use vstd::arithmetic::power::{
    lemma_pow0, lemma_pow1, lemma_pow_adds, lemma_pow_mod_noop, lemma_pow_multiplies,
    lemma_square_is_pow2, pow,
};
use vstd::prelude::*;

verus! {

/// Failures of the arithmetic layer.
#[derive(Clone, Copy, Debug, PartialEq, Eq, Structural)]
pub enum NumericError {
    /// The modulus was zero, so no residue exists.
    InvalidModulus,
}

/// `base^exponent mod modulus` over the naturals.
///
/// Meaningful for `modulus > 0`; the result is then below `modulus`.
pub open spec fn pow_mod(base: nat, exponent: nat, modulus: nat) -> nat {
    (pow(base as int, exponent) % (modulus as int)) as nat
}

/// `(a * b) mod m`, with the product formed in 128 bits so that it cannot wrap.
pub fn mul_mod(a: u64, b: u64, m: u64) -> (r: u64)
    requires
        m > 0,
    ensures
        r == (a as nat * b as nat) % (m as nat),
        r < m,
{
    assert(a as int * b as int <= 0xffff_ffff_ffff_ffff * 0xffff_ffff_ffff_ffff) by (nonlinear_arith)
        requires
            0 <= a as int <= 0xffff_ffff_ffff_ffff,
            0 <= b as int <= 0xffff_ffff_ffff_ffff,
    ;
    let wide: u128 = (a as u128) * (b as u128);
    let reduced: u128 = wide % (m as u128);
    reduced as u64
}

/// One round of square-and-multiply keeps `acc * b^e` in its residue class:
/// the exponent is halved, the base squared, and the accumulator takes one
/// factor `b` exactly when the exponent was odd.
proof fn lemma_square_and_multiply_step(acc: int, b: int, e: nat, m: int)
    requires
        m > 0,
        e > 0,
    ensures
        e % 2 == 1 ==> (((acc * b) % m) * pow((b * b) % m, e / 2)) % m == (acc * pow(b, e)) % m,
        e % 2 == 0 ==> (acc * pow((b * b) % m, e / 2)) % m == (acc * pow(b, e)) % m,
{
    let k: nat = e / 2;
    let sq = b * b;
    // b^(2k) == (b*b)^k
    assert(pow(b, 2 * k) == pow(sq, k)) by {
        lemma_square_is_pow2(b);
        lemma_pow_multiplies(b, 2, k);
    }
    // (b*b mod m)^k and (b*b)^k agree modulo m
    lemma_pow_mod_noop(sq, k, m);
    if e % 2 == 1 {
        assert(e == 2 * k + 1);
        assert(pow(b, e) == pow(sq, k) * b) by {
            lemma_pow_adds(b, 2 * k, 1);
            lemma_pow1(b);
        }
        assert(acc * pow(b, e) == (acc * b) * pow(sq, k)) by {
            lemma_mul_is_commutative(pow(sq, k), b);
            lemma_mul_is_associative(acc, b, pow(sq, k));
        }
        lemma_mul_mod_noop_general(acc * b, pow(sq, k), m);
        lemma_mul_mod_noop_general(acc * b, pow(sq % m, k), m);
    } else {
        assert(e == 2 * k);
        lemma_mul_mod_noop_general(acc, pow(sq, k), m);
        lemma_mul_mod_noop_general(acc, pow(sq % m, k), m);
    }
}

/// Computes `base^exp mod modulus` by iterative square-and-multiply.
///
/// Every product is reduced through a 128-bit intermediate, so the result is
/// exact for the whole 64-bit range of all three arguments.  A zero modulus
/// is excluded here; [`modexp`] reports it as an error instead.
pub fn power_mod(base: u64, exp: u64, modulus: u64) -> (result: u64)
    requires
        modulus > 0,
    ensures
        result == pow_mod(base as nat, exp as nat, modulus as nat),
        result < modulus,
{
    let mut result: u64 = 1 % modulus;
    let mut b: u64 = base % modulus;
    let mut e: u64 = exp;
    proof {
        let m = modulus as int;
        lemma_pow_mod_noop(base as int, exp as nat, m);
        lemma_mul_mod_noop_general(1, pow(b as int, e as nat), m);
        lemma_mul_mod_noop_general(1, pow(base as int, exp as nat), m);
    }
    while e > 0
        invariant
            modulus > 0,
            result < modulus,
            b < modulus,
            (result as int * pow(b as int, e as nat)) % (modulus as int) == pow(
                base as int,
                exp as nat,
            ) % (modulus as int),
        decreases e,
    {
        proof {
            lemma_square_and_multiply_step(result as int, b as int, e as nat, modulus as int);
        }
        if e % 2 == 1 {
            result = mul_mod(result, b, modulus);
        }
        e = e / 2;
        b = mul_mod(b, b, modulus);
    }
    proof {
        lemma_pow0(b as int);
        lemma_small_mod(result as nat, modulus as nat);
    }
    result
}

/// Total form of [`power_mod`]: a zero modulus is rejected with
/// [`NumericError::InvalidModulus`], every other input yields the residue.
pub fn modexp(base: u64, exponent: u64, modulus: u64) -> (r: Result<u64, NumericError>)
    ensures
        modulus == 0 <==> r == Err::<u64, NumericError>(NumericError::InvalidModulus),
        modulus > 0 ==> r == Ok::<u64, NumericError>(
            pow_mod(base as nat, exponent as nat, modulus as nat) as u64,
        ),
        r matches Ok(v) ==> v < modulus,
{
    if modulus == 0 {
        Err(NumericError::InvalidModulus)
    } else {
        Ok(power_mod(base, exponent, modulus))
    }
}

/// Raising to the power zero gives the residue of one: `x^0 mod m == 1 mod m`,
/// which is `1` for every modulus above one and `0` for the modulus one.
pub proof fn lemma_zero_exponent(x: nat, m: nat)
    requires
        m > 0,
    ensures
        pow_mod(x, 0, m) == 1int % (m as int),
        m > 1 ==> pow_mod(x, 0, m) == 1,
{
    lemma_pow0(x as int);
    if m > 1 {
        lemma_small_mod(1, m);
    }
}

/// Raising a published value to one's own exponent is raising the generator
/// to the product of both exponents: `(g^a mod p)^b mod p == g^(a*b) mod p`.
pub proof fn lemma_pow_mod_composes(g: nat, a: nat, b: nat, p: nat)
    requires
        p > 0,
    ensures
        pow_mod(pow_mod(g, a, p), b, p) == pow_mod(g, a * b, p),
{
    let m = p as int;
    lemma_pow_mod_noop(pow(g as int, a), b, m);
    lemma_pow_multiplies(g as int, a, b);
}

/// Diffie-Hellman agreement: with `A = g^a mod p` and `B = g^b mod p`, both
/// sides derive the same secret, `B^a mod p == A^b mod p`, for every
/// generator and every pair of exponents.
pub proof fn lemma_exchange_agrees(g: nat, a: nat, b: nat, p: nat)
    requires
        p > 0,
    ensures
        pow_mod(pow_mod(g, b, p), a, p) == pow_mod(pow_mod(g, a, p), b, p),
{
    lemma_pow_mod_composes(g, a, b, p);
    lemma_pow_mod_composes(g, b, a, p);
    lemma_mul_is_commutative(a as int, b as int);
}

/// [`power_mod`] is a function of its arguments: any two results it can
/// return for the same base, exponent and modulus are equal.
pub proof fn lemma_power_mod_deterministic(
    base: u64,
    exp: u64,
    modulus: u64,
    first: u64,
    second: u64,
)
    requires
        call_ensures(power_mod, (base, exp, modulus), first),
        call_ensures(power_mod, (base, exp, modulus), second),
    ensures
        first == second,
{
}

} // verus!
