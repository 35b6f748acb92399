//! Arithmetic modulo the prime `27 * 2^56 + 1`.
use vstd::arithmetic::div_mod::{
    lemma_mul_mod_noop_general, lemma_mul_mod_noop_left, lemma_mul_mod_noop_right,
    lemma_small_mod,
};
use vstd::arithmetic::power::{
    lemma_pow0, lemma_pow1, lemma_pow_adds, lemma_pow_mod_noop, lemma_pow_multiplies, pow,
};
use vstd::prelude::*;

verus! {

/// The modulus, `27 * 2^56 + 1`.
pub const MODULUS: u64 = 0x1B00_0000_0000_0001;

/// The product of two residues, reduced.
pub open spec fn mul_mod_spec(a: nat, b: nat) -> nat {
    (a * b) % (MODULUS as nat)
}

/// `base` to the power `exp`, reduced.
pub open spec fn pow_mod_spec(base: nat, exp: nat) -> nat {
    (pow(base as int, exp) % (MODULUS as int)) as nat
}

/// A power of a natural number is not negative.
pub proof fn lemma_pow_nonnegative(base: nat, exp: nat)
    ensures
        pow(base as int, exp) >= 0,
    decreases exp,
{
    reveal(pow);
    if exp > 0 {
        lemma_pow_nonnegative(base, (exp - 1) as nat);
        assert(base * pow(base as int, (exp - 1) as nat) >= 0) by (nonlinear_arith)
            requires
                base >= 0,
                pow(base as int, (exp - 1) as nat) >= 0,
        ;
    }
}

/// A reduced power is a residue.
pub proof fn lemma_pow_mod_bound(base: nat, exp: nat)
    ensures
        pow_mod_spec(base, exp) < MODULUS,
        pow_mod_spec(base, exp) == pow(base as int, exp) % (MODULUS as int),
{
    lemma_pow_nonnegative(base, exp);
}

/// Raising a reduced power to a further power multiplies the exponents.
pub proof fn lemma_pow_mod_tower(base: nat, x: nat, y: nat)
    ensures
        pow_mod_spec(pow_mod_spec(base, x), y) == pow_mod_spec(base, x * y),
{
    let m = MODULUS as int;
    lemma_pow_mod_bound(base, x);
    lemma_pow_mod_noop(pow(base as int, x), y, m);
    lemma_pow_multiplies(base as int, x, y);
}

/// The product of two reduced powers of one base adds the exponents.
pub proof fn lemma_pow_mod_sum(base: nat, x: nat, y: nat)
    ensures
        mul_mod_spec(pow_mod_spec(base, x), pow_mod_spec(base, y)) == pow_mod_spec(base, x + y),
{
    let m = MODULUS as int;
    lemma_pow_mod_bound(base, x);
    lemma_pow_mod_bound(base, y);
    lemma_pow_nonnegative(base, x + y);
    lemma_mul_mod_noop_general(pow(base as int, x), pow(base as int, y), m);
    lemma_pow_adds(base as int, x, y);
}

/// Multiplies two words and reduces the product.
pub fn mul_mod(a: u64, b: u64) -> (r: u64)
    ensures
        r == mul_mod_spec(a as nat, b as nat),
        r < MODULUS,
{
    assert(a * b <= 0xFFFF_FFFF_FFFF_FFFF * 0xFFFF_FFFF_FFFF_FFFF) by (nonlinear_arith)
        requires
            a <= 0xFFFF_FFFF_FFFF_FFFF,
            b <= 0xFFFF_FFFF_FFFF_FFFF,
    ;
    let wide: u128 = (a as u128) * (b as u128);
    let reduced: u128 = wide % (MODULUS as u128);
    reduced as u64
}

/// One round of square-and-multiply keeps the product `acc * base^exp`.
proof fn lemma_pow_mod_halve(acc: nat, base: nat, exp: nat)
    requires
        exp > 0,
    ensures
        exp % 2 == 1 ==> (mul_mod_spec(acc, base) * pow(
            mul_mod_spec(base, base) as int,
            exp / 2,
        )) % (MODULUS as int) == (acc * pow(base as int, exp)) % (MODULUS as int),
        exp % 2 == 0 ==> (acc * pow(mul_mod_spec(base, base) as int, exp / 2)) % (MODULUS as int)
            == (acc * pow(base as int, exp)) % (MODULUS as int),
{
    let m = MODULUS as int;
    let b = base as int;
    let a = acc as int;
    let h = exp / 2;
    let sq = pow(b * b, h);
    // pow(b, 2h) == pow(b * b, h)
    lemma_pow_multiplies(b, 2, h);
    assert(pow(b, 2) == b * b) by {
        reveal_with_fuel(pow, 3);
    }
    assert(pow(b, 2 * h) == sq);
    // pow((b * b) % m, h) % m == pow(b * b, h) % m
    lemma_pow_mod_noop(b * b, h, m);
    let sqm = pow(mul_mod_spec(base, base) as int, h);
    assert(sqm % m == sq % m);
    if exp % 2 == 0 {
        assert(exp == 2 * h);
        lemma_mul_mod_noop_right(a, sqm, m);
        lemma_mul_mod_noop_right(a, sq, m);
    } else {
        assert(exp == 2 * h + 1);
        lemma_pow_adds(b, 2 * h, 1);
        lemma_pow1(b);
        assert(pow(b, exp) == sq * b);
        let ab = mul_mod_spec(acc, base) as int;
        assert(ab == (a * b) % m);
        // (ab * sqm) % m == ((a * b) * sq) % m
        lemma_mul_mod_noop_right(ab, sqm, m);
        lemma_mul_mod_noop_right(ab, sq, m);
        lemma_mul_mod_noop_left(a * b, sq, m);
        assert((ab * sqm) % m == ((a * b) * sq) % m);
        assert((a * b) * sq == a * (sq * b)) by (nonlinear_arith);
    }
}

/// Raises a word to a power by square-and-multiply, reduced.
pub fn pow_mod(base: u64, exp: u128) -> (r: u64)
    ensures
        r == pow_mod_spec(base as nat, exp as nat),
        r < MODULUS,
{
    let mut acc: u64 = 1;
    let mut b: u64 = base % MODULUS;
    let mut e: u128 = exp;
    proof {
        lemma_pow_nonnegative(base as nat, exp as nat);
        lemma_pow_mod_noop(base as int, exp as nat, MODULUS as int);
        lemma_mul_mod_noop_right(1, pow(b as int, e as nat), MODULUS as int);
    }
    while e > 0
        invariant
            acc < MODULUS,
            b < MODULUS,
            (acc * pow(b as int, e as nat)) % (MODULUS as int) == pow(base as int, exp as nat) % (
            MODULUS as int),
        decreases e,
    {
        proof {
            lemma_pow_mod_halve(acc as nat, b as nat, e as nat);
        }
        if e % 2 == 1 {
            acc = mul_mod(acc, b);
        }
        b = mul_mod(b, b);
        e = e / 2;
    }
    proof {
        lemma_pow0(b as int);
        lemma_small_mod(acc as nat, MODULUS as nat);
    }
    acc
}

} // verus!
