//! The order of the group, and what follows when a base generates it.
//!
//! The group of residues prime to the modulus has `2^56 * 27` elements. A base
//! generates all of it when its power to the order is 1 and its powers to the
//! half and to the third of the order are not: then no smaller positive power
//! is 1, no two powers below the order coincide, and none of them is 0.
use crate::field::{
    lemma_pow_mod_bound, lemma_pow_mod_sum, lemma_pow_mod_tower, pow_mod_spec, MODULUS,
};
use vstd::arithmetic::div_mod::{
    lemma_fundamental_div_mod, lemma_mod_multiples_basic, lemma_small_mod,
};
use vstd::arithmetic::power::{lemma1_pow, lemma_pow_positive, pow};
use vstd::arithmetic::power2::{lemma2_to64_rest, lemma_pow2};
use vstd::prelude::*;

verus! {

/// The number of residues prime to the modulus: `2^56 * 27`.
pub const ORDER: u64 = 0x1B00_0000_0000_0000;

/// The greatest common divisor, by Euclid's algorithm.
pub open spec fn gcd(a: nat, b: nat) -> nat
    decreases b,
{
    if b == 0 {
        a
    } else {
        gcd(b, a % b)
    }
}

/// Whether the powers of `base` run through the whole group.
pub open spec fn generates(base: nat) -> bool {
    &&& pow_mod_spec(base, ORDER as nat) == 1
    &&& pow_mod_spec(base, (ORDER / 2) as nat) != 1
    &&& pow_mod_spec(base, (ORDER / 3) as nat) != 1
}

/// A sum of a multiple of `d` and a multiple of a multiple of `d` is a
/// multiple of `d`.
proof fn lemma_multiple_combination(d: int, x: int, k: int, y: int)
    requires
        d > 0,
        x % d == 0,
        y % d == 0,
    ensures
        (x + k * y) % d == 0,
{
    lemma_fundamental_div_mod(x, d);
    lemma_fundamental_div_mod(y, d);
    let t = x / d + k * (y / d);
    assert(x + k * y == t * d) by (nonlinear_arith)
        requires
            x == d * (x / d),
            y == d * (y / d),
            t == x / d + k * (y / d),
    ;
    lemma_mod_multiples_basic(t, d);
}

/// The greatest common divisor divides both numbers, and is positive unless
/// both are 0.
pub proof fn lemma_gcd_divides(a: nat, b: nat)
    requires
        a > 0 || b > 0,
    ensures
        gcd(a, b) > 0,
        a % gcd(a, b) == 0,
        b % gcd(a, b) == 0,
    decreases b,
{
    if b == 0 {
        lemma_mod_multiples_basic(1, a as int);
        lemma_mod_multiples_basic(0, a as int);
    } else {
        let d = gcd(b, a % b);
        lemma_gcd_divides(b, a % b);
        lemma_fundamental_div_mod(a as int, b as int);
        assert(a == (a % b) + (a / b) * b) by (nonlinear_arith)
            requires
                a == b * (a / b) + (a % b),
        ;
        lemma_multiple_combination(d as int, (a % b) as int, (a / b) as int, b as int);
    }
}

/// Whatever divides `a * m` and `b * m` divides `gcd(a, b) * m`.
pub proof fn lemma_divides_gcd_multiple(h: nat, a: nat, b: nat, m: nat)
    requires
        h > 0,
        (a * m) % h == 0,
        (b * m) % h == 0,
    ensures
        (gcd(a, b) * m) % h == 0,
    decreases b,
{
    if b > 0 {
        lemma_fundamental_div_mod(a as int, b as int);
        let q = (a / b) as int;
        let r = (a % b) as int;
        assert(r * m == a * m + (-q) * (b * m)) by (nonlinear_arith)
            requires
                a == b * q + r,
        ;
        lemma_multiple_combination(h as int, (a * m) as int, -q, (b * m) as int);
        lemma_divides_gcd_multiple(h, b, (a % b) as nat, m);
    }
}

/// A number that divides `f * m` and has no factor in common with the
/// prime `f`, 2 or 3, divides `m`.
proof fn lemma_peel(h: nat, f: nat, m: nat)
    requires
        h > 0,
        f == 2 || f == 3,
        (f * m) % h == 0,
        h % f != 0,
    ensures
        m % h == 0,
{
    let r = h % f;
    assert(gcd(h, f) == gcd(f, r));
    assert(gcd(1, 0) == 1);
    if r == 1 {
        assert(f % 1 == 0);
        assert(gcd(f, 1) == gcd(1, f % 1));
    } else {
        assert(3nat % 2 == 1 && 2nat % 1 == 0);
        assert(gcd(3, 2) == gcd(2, 3nat % 2));
        assert(gcd(2, 1) == gcd(1, 2nat % 1));
    }
    assert(gcd(h, f) == 1);
    lemma_mod_multiples_basic(m as int, h as int);
    assert((h * m) % h == 0) by {
        assert(h * m == m * h) by (nonlinear_arith);
    }
    lemma_divides_gcd_multiple(h, h, f, m);
    assert(1 * m == m);
}

/// A divisor greater than 1 of a product of powers of 2 and 3 is even or a
/// multiple of 3.
proof fn lemma_smooth_divisor(h: nat, twos: nat, threes: nat)
    requires
        h > 1,
        (pow(2, twos) * pow(3, threes)) % (h as int) == 0,
    ensures
        h % 2 == 0 || h % 3 == 0,
    decreases twos + threes,
{
    reveal(pow);
    lemma_pow_positive(2, twos);
    lemma_pow_positive(3, threes);
    if h % 2 != 0 && h % 3 != 0 {
        if twos > 0 {
            let rest = pow(2, (twos - 1) as nat) * pow(3, threes);
            lemma_pow_positive(2, (twos - 1) as nat);
            assert(rest > 0) by (nonlinear_arith)
                requires
                    rest == pow(2, (twos - 1) as nat) * pow(3, threes),
                    pow(2, (twos - 1) as nat) > 0,
                    pow(3, threes) > 0,
            ;
            assert(pow(2, twos) * pow(3, threes) == 2 * rest) by (nonlinear_arith)
                requires
                    pow(2, twos) == 2 * pow(2, (twos - 1) as nat),
                    rest == pow(2, (twos - 1) as nat) * pow(3, threes),
            ;
            lemma_peel(h, 2, rest as nat);
            lemma_smooth_divisor(h, (twos - 1) as nat, threes);
        } else if threes > 0 {
            let rest = pow(2, twos) * pow(3, (threes - 1) as nat);
            lemma_pow_positive(3, (threes - 1) as nat);
            assert(rest > 0) by (nonlinear_arith)
                requires
                    rest == pow(2, twos) * pow(3, (threes - 1) as nat),
                    pow(2, twos) > 0,
                    pow(3, (threes - 1) as nat) > 0,
            ;
            assert(pow(2, twos) * pow(3, threes) == 3 * rest) by (nonlinear_arith)
                requires
                    pow(3, threes) == 3 * pow(3, (threes - 1) as nat),
                    rest == pow(2, twos) * pow(3, (threes - 1) as nat),
            ;
            lemma_peel(h, 3, rest as nat);
            lemma_smooth_divisor(h, twos, (threes - 1) as nat);
        } else {
            assert(pow(2, 0) * pow(3, 0) == 1);
            lemma_small_mod(1, h);
        }
    }
}

/// The order is `2^56 * 3^3`.
proof fn lemma_order_factors()
    ensures
        ORDER == pow(2, 56) * pow(3, 3),
{
    lemma2_to64_rest();
    lemma_pow2(56);
    assert(pow(3, 3) == 27) by {
        reveal_with_fuel(pow, 4);
    }
}

/// A proper divisor of the order divides its half or its third.
proof fn lemma_proper_divisor(c: nat)
    requires
        0 < c < ORDER,
        ORDER % (c as u64) == 0,
    ensures
        (ORDER / 2) % (c as u64) == 0 || (ORDER / 3) % (c as u64) == 0,
{
    let n = ORDER as int;
    let h = n / (c as int);
    lemma_fundamental_div_mod(n, c as int);
    assert(n == c * h);
    assert(h > 1) by (nonlinear_arith)
        requires
            n == c * h,
            0 < c < n,
    ;
    // the cofactor divides the order too, so it is even or a multiple of 3
    lemma_mod_multiples_basic(c as int, h);
    assert(n % h == 0) by {
        assert(c * h == h * c) by (nonlinear_arith);
    }
    lemma_order_factors();
    lemma_smooth_divisor(h as nat, 56, 3);
    if h % 2 == 0 {
        lemma_fundamental_div_mod(h, 2);
        let k = h / 2;
        assert(n / 2 == k * c) by (nonlinear_arith)
            requires
                n == c * h,
                h == 2 * k,
        ;
        lemma_mod_multiples_basic(k, c as int);
    } else {
        lemma_fundamental_div_mod(h, 3);
        let k = h / 3;
        assert(n / 3 == k * c) by (nonlinear_arith)
            requires
                n == c * h,
                h == 3 * k,
        ;
        lemma_mod_multiples_basic(k, c as int);
    }
}

/// Every power of 1 is 1.
proof fn lemma_power_of_one(exp: nat)
    ensures
        pow_mod_spec(1, exp) == 1,
{
    lemma1_pow(exp);
    lemma_small_mod(1, MODULUS as nat);
}

/// Multiplying by 1 leaves a residue as it is.
proof fn lemma_times_one(base: nat, exp: nat)
    ensures
        (1 * pow_mod_spec(base, exp)) % (MODULUS as nat) == pow_mod_spec(base, exp),
{
    lemma_pow_mod_bound(base, exp);
    lemma_small_mod(pow_mod_spec(base, exp), MODULUS as nat);
}

/// If a power of the base is 1, so is that power raised further.
proof fn lemma_unit_multiple(base: nat, d: nat, k: nat)
    requires
        pow_mod_spec(base, d) == 1,
    ensures
        pow_mod_spec(base, d * k) == 1,
{
    lemma_pow_mod_tower(base, d, k);
    lemma_power_of_one(k);
}

/// If two powers of the base are 1, so is the power to the remainder of
/// the exponents.
proof fn lemma_unit_remainder(base: nat, m: nat, n: nat)
    requires
        n > 0,
        pow_mod_spec(base, m) == 1,
        pow_mod_spec(base, n) == 1,
    ensures
        pow_mod_spec(base, m % n) == 1,
{
    lemma_fundamental_div_mod(m as int, n as int);
    let q = m / n;
    let r = m % n;
    lemma_unit_multiple(base, n, q);
    assert(n * q + r == m) by (nonlinear_arith)
        requires
            m == n * q + r,
    ;
    lemma_pow_mod_sum(base, n * q, r);
    lemma_times_one(base, r);
}

/// If two powers of the base are 1, so is the power to the greatest
/// common divisor of the exponents.
proof fn lemma_unit_gcd(base: nat, m: nat, n: nat)
    requires
        pow_mod_spec(base, m) == 1,
        pow_mod_spec(base, n) == 1,
    ensures
        pow_mod_spec(base, gcd(m, n)) == 1,
    decreases n,
{
    if n > 0 {
        lemma_unit_remainder(base, m, n);
        lemma_unit_gcd(base, n, m % n);
    }
}

/// No positive power of a generator below the order is 1.
pub proof fn lemma_order_is_full(base: nat, d: nat)
    requires
        generates(base),
        0 < d < ORDER,
    ensures
        pow_mod_spec(base, d) != 1,
{
    if pow_mod_spec(base, d) == 1 {
        let c = gcd(d, ORDER as nat);
        lemma_unit_gcd(base, d, ORDER as nat);
        lemma_gcd_divides(d, ORDER as nat);
        assert(c <= d) by {
            lemma_fundamental_div_mod(d as int, c as int);
            assert(d / c >= 1 && c <= d) by (nonlinear_arith)
                requires
                    d == c * (d / c),
                    d > 0,
                    c > 0,
            ;
        }
        lemma_proper_divisor(c);
        if (ORDER / 2) % (c as u64) == 0 {
            let half = (ORDER / 2) as nat;
            lemma_fundamental_div_mod(half as int, c as int);
            assert(c * (half / c) == half) by (nonlinear_arith)
                requires
                    half == c * (half / c),
            ;
            lemma_unit_multiple(base, c, half / c);
        } else {
            let third = (ORDER / 3) as nat;
            lemma_fundamental_div_mod(third as int, c as int);
            assert(c * (third / c) == third) by (nonlinear_arith)
                requires
                    third == c * (third / c),
            ;
            lemma_unit_multiple(base, c, third / c);
        }
    }
}

/// Two exponents below the order that give the same power of a generator
/// are the same.
pub proof fn lemma_power_injective(base: nat, a: nat, b: nat)
    requires
        generates(base),
        a < ORDER,
        b < ORDER,
        pow_mod_spec(base, a) == pow_mod_spec(base, b),
    ensures
        a == b,
{
    if a != b {
        let low = if a < b { a } else { b };
        let high = if a < b { b } else { a };
        let lift = (ORDER - low) as nat;
        let gap = (high - low) as nat;
        // base^(order - low) * base^low == 1 == base^(order - low) * base^high
        lemma_pow_mod_sum(base, lift, low);
        lemma_pow_mod_sum(base, lift, high);
        assert(pow_mod_spec(base, lift + high) == 1);
        // and order - low + high == order + gap
        lemma_pow_mod_sum(base, ORDER as nat, gap);
        lemma_times_one(base, gap);
        assert(lift + high == ORDER + gap);
        lemma_order_is_full(base, gap);
    }
}

/// A power of a generator depends only on the exponent's remainder by the
/// order.
pub proof fn lemma_power_periodic(base: nat, exp: nat)
    requires
        generates(base),
    ensures
        pow_mod_spec(base, exp) == pow_mod_spec(base, exp % (ORDER as nat)),
{
    let n = ORDER as nat;
    lemma_fundamental_div_mod(exp as int, n as int);
    let q = exp / n;
    let r = exp % n;
    lemma_unit_multiple(base, n, q);
    assert(n * q + r == exp) by (nonlinear_arith)
        requires
            exp == n * q + r,
    ;
    lemma_pow_mod_sum(base, n * q, r);
    lemma_times_one(base, r);
}

/// Two powers of a generator are the same exactly when the exponents
/// leave the same remainder by the order.
pub proof fn lemma_power_congruence(base: nat, a: nat, b: nat)
    requires
        generates(base),
    ensures
        (pow_mod_spec(base, a) == pow_mod_spec(base, b)) == (a % (ORDER as nat) == b % (
        ORDER as nat)),
{
    lemma_power_periodic(base, a);
    lemma_power_periodic(base, b);
    if pow_mod_spec(base, a) == pow_mod_spec(base, b) {
        lemma_power_injective(base, a % (ORDER as nat), b % (ORDER as nat));
    }
}

/// A power of a generator to an exponent between 1 and the order, both
/// excluded, is neither 0 nor 1.
pub proof fn lemma_power_not_degenerate(base: nat, exp: nat)
    requires
        generates(base),
        0 < exp < ORDER,
    ensures
        2 <= pow_mod_spec(base, exp) < MODULUS,
{
    lemma_pow_mod_bound(base, exp);
    lemma_order_is_full(base, exp);
    let rest = (ORDER - exp) as nat;
    lemma_pow_mod_sum(base, exp, rest);
    if pow_mod_spec(base, exp) == 0 {
        assert(0 * pow_mod_spec(base, rest) == 0);
    }
}

} // verus!
