//! A 64-bit mixing function and the keyed digest built on it.
//!
//! The mixer adds a fixed odd increment and then folds and multiplies twice.
//! It is invertible and spreads every input bit over the output, but it is
//! no cryptographic hash.
use vstd::arithmetic::div_mod::{
    lemma_fundamental_div_mod, lemma_mod_multiples_vanish, lemma_mul_mod_noop_left,
    lemma_small_mod,
};
use vstd::prelude::*;

verus! {

/// The mixing function: an increment, two fold-and-multiply rounds and a
/// final fold.
pub open spec fn mix64_spec(x: u64) -> u64 {
    let z = x.wrapping_add(0x9E37_79B9_7F4A_7C15);
    let a = (z ^ (z >> 30)).wrapping_mul(0xBF58_476D_1CE4_E5B9);
    let b = (a ^ (a >> 27)).wrapping_mul(0x94D0_49BB_1331_11EB);
    b ^ (b >> 31)
}

/// The state after the bytes of `data` have been absorbed one by one.
pub open spec fn absorb_spec(state: u64, data: Seq<u8>) -> u64
    decreases data.len(),
{
    if data.len() == 0 {
        state
    } else {
        mix64_spec(absorb_spec(state, data.drop_last()) ^ (data.last() as u64))
    }
}

/// The digest of `data` under `key`: the key is mixed, the bytes are
/// absorbed, and the length closes the digest.
pub open spec fn keyed_digest_spec(key: u64, data: Seq<u8>) -> u64 {
    mix64_spec(absorb_spec(mix64_spec(key), data) ^ (data.len() as u64))
}

/// Multiplying by an odd constant, with wrap-around, loses nothing: a
/// word is recovered from its multiple by the constant's inverse.
proof fn lemma_wrapping_mul_inverse(x: u64, c: u64, d: u64)
    requires
        (c * d) % 0x1_0000_0000_0000_0000 == 1,
    ensures
        x.wrapping_mul(c).wrapping_mul(d) == x,
{
    let m: int = 0x1_0000_0000_0000_0000;
    let q: int = (c * d) / m;
    assert(c * d == q * m + 1) by {
        lemma_fundamental_div_mod(c * d, m);
    }
    let once = x.wrapping_mul(c);
    assert(once == (x * c) % m);
    assert(once.wrapping_mul(d) == (once * d) % m);
    lemma_mul_mod_noop_left(x * c, d as int, m);
    assert((once * d) % m == ((x * c) * d) % m);
    assert((x * c) * d == (x * q) * m + x) by (nonlinear_arith)
        requires
            c * d == q * m + 1,
    ;
    lemma_mod_multiples_vanish(x * q, x as int, m);
    lemma_small_mod(x as nat, m as nat);
}

/// The mixing function is one-to-one.
pub proof fn lemma_mix64_injective(x: u64, y: u64)
    requires
        mix64_spec(x) == mix64_spec(y),
    ensures
        x == y,
{
    let zx = x.wrapping_add(0x9E37_79B9_7F4A_7C15);
    let zy = y.wrapping_add(0x9E37_79B9_7F4A_7C15);
    let fx = zx ^ (zx >> 30);
    let fy = zy ^ (zy >> 30);
    let ax = fx.wrapping_mul(0xBF58_476D_1CE4_E5B9);
    let ay = fy.wrapping_mul(0xBF58_476D_1CE4_E5B9);
    let gx = ax ^ (ax >> 27);
    let gy = ay ^ (ay >> 27);
    let bx = gx.wrapping_mul(0x94D0_49BB_1331_11EB);
    let by = gy.wrapping_mul(0x94D0_49BB_1331_11EB);
    assert(bx ^ (bx >> 31) == by ^ (by >> 31));
    assert(bx == by) by (bit_vector)
        requires
            bx ^ (bx >> 31) == by ^ (by >> 31),
    ;
    lemma_wrapping_mul_inverse(gx, 0x94D0_49BB_1331_11EB, 0x3196_42B2_D24D_8EC3);
    lemma_wrapping_mul_inverse(gy, 0x94D0_49BB_1331_11EB, 0x3196_42B2_D24D_8EC3);
    assert(gx == gy);
    assert(ax == ay) by (bit_vector)
        requires
            ax ^ (ax >> 27) == ay ^ (ay >> 27),
    ;
    lemma_wrapping_mul_inverse(fx, 0xBF58_476D_1CE4_E5B9, 0x96DE_1B17_3F11_9089);
    lemma_wrapping_mul_inverse(fy, 0xBF58_476D_1CE4_E5B9, 0x96DE_1B17_3F11_9089);
    assert(fx == fy);
    assert(zx == zy) by (bit_vector)
        requires
            zx ^ (zx >> 30) == zy ^ (zy >> 30),
    ;
}

/// Folding the same word into two different words leaves them different.
pub proof fn lemma_xor_keeps_apart(a: u64, b: u64, c: u64)
    requires
        a != b,
    ensures
        a ^ c != b ^ c,
        c ^ a != c ^ b,
{
    assert(a ^ c != b ^ c) by (bit_vector)
        requires
            a != b,
    ;
    assert(c ^ a != c ^ b) by (bit_vector)
        requires
            a != b,
    ;
}

/// Absorbing the same bytes into two different states leaves them
/// different.
pub proof fn lemma_absorb_keeps_states_apart(first: u64, second: u64, data: Seq<u8>)
    requires
        first != second,
    ensures
        absorb_spec(first, data) != absorb_spec(second, data),
    decreases data.len(),
{
    if data.len() > 0 {
        let a = absorb_spec(first, data.drop_last());
        let b = absorb_spec(second, data.drop_last());
        lemma_absorb_keeps_states_apart(first, second, data.drop_last());
        lemma_xor_keeps_apart(a, b, data.last() as u64);
        if absorb_spec(first, data) == absorb_spec(second, data) {
            lemma_mix64_injective(a ^ (data.last() as u64), b ^ (data.last() as u64));
        }
    }
}

/// Two texts of one length that differ in exactly one byte are absorbed
/// into different states.
pub proof fn lemma_absorb_single_change(state: u64, first: Seq<u8>, second: Seq<u8>, at: int)
    requires
        first.len() == second.len(),
        0 <= at < first.len(),
        first[at] != second[at],
        forall|i: int| 0 <= i < first.len() && i != at ==> first[i] == second[i],
    ensures
        absorb_spec(state, first) != absorb_spec(state, second),
    decreases first.len(),
{
    let a = absorb_spec(state, first.drop_last());
    let b = absorb_spec(state, second.drop_last());
    let x = first.last() as u64;
    let y = second.last() as u64;
    if at == first.len() - 1 {
        assert(first.drop_last() =~= second.drop_last());
        assert(a == b);
        assert(x != y);
        lemma_xor_keeps_apart(x, y, a);
    } else {
        lemma_absorb_single_change(state, first.drop_last(), second.drop_last(), at);
        assert(x == y);
        lemma_xor_keeps_apart(a, b, x);
    }
    if absorb_spec(state, first) == absorb_spec(state, second) {
        lemma_mix64_injective(a ^ x, b ^ y);
    }
}

/// The digest tells two keys apart on every text.
pub proof fn lemma_digest_keeps_keys_apart(first: u64, second: u64, data: Seq<u8>)
    requires
        first != second,
    ensures
        keyed_digest_spec(first, data) != keyed_digest_spec(second, data),
{
    if mix64_spec(first) == mix64_spec(second) {
        lemma_mix64_injective(first, second);
    }
    lemma_absorb_keeps_states_apart(mix64_spec(first), mix64_spec(second), data);
    let a = absorb_spec(mix64_spec(first), data);
    let b = absorb_spec(mix64_spec(second), data);
    lemma_xor_keeps_apart(a, b, data.len() as u64);
    if keyed_digest_spec(first, data) == keyed_digest_spec(second, data) {
        lemma_mix64_injective(a ^ (data.len() as u64), b ^ (data.len() as u64));
    }
}

/// The digest tells apart two texts of one length that differ in exactly
/// one byte.
pub proof fn lemma_digest_single_change(key: u64, first: Seq<u8>, second: Seq<u8>, at: int)
    requires
        first.len() == second.len(),
        0 <= at < first.len(),
        first[at] != second[at],
        forall|i: int| 0 <= i < first.len() && i != at ==> first[i] == second[i],
    ensures
        keyed_digest_spec(key, first) != keyed_digest_spec(key, second),
{
    lemma_absorb_single_change(mix64_spec(key), first, second, at);
    let a = absorb_spec(mix64_spec(key), first);
    let b = absorb_spec(mix64_spec(key), second);
    lemma_xor_keeps_apart(a, b, first.len() as u64);
    if keyed_digest_spec(key, first) == keyed_digest_spec(key, second) {
        lemma_mix64_injective(a ^ (first.len() as u64), b ^ (second.len() as u64));
    }
}

/// Mixes one word.
pub fn mix64(x: u64) -> (r: u64)
    ensures
        r == mix64_spec(x),
{
    let z: u64 = x.wrapping_add(0x9E37_79B9_7F4A_7C15);
    let a: u64 = (z ^ (z >> 30)).wrapping_mul(0xBF58_476D_1CE4_E5B9);
    let b: u64 = (a ^ (a >> 27)).wrapping_mul(0x94D0_49BB_1331_11EB);
    b ^ (b >> 31)
}

/// Absorbs the bytes of `data` into `state`.
pub fn absorb(state: u64, data: &[u8]) -> (r: u64)
    ensures
        r == absorb_spec(state, data@),
{
    let mut h: u64 = state;
    let mut i: usize = 0;
    while i < data.len()
        invariant
            i <= data@.len(),
            h == absorb_spec(state, data@.take(i as int)),
        decreases data@.len() - i,
    {
        proof {
            let next = data@.take(i + 1);
            assert(next.drop_last() =~= data@.take(i as int));
            assert(next.last() == data@[i as int]);
        }
        h = mix64(h ^ (data[i] as u64));
        i = i + 1;
    }
    proof {
        assert(data@.take(i as int) =~= data@);
    }
    h
}

/// Computes the digest of `data` under `key`.
pub fn keyed_digest(key: u64, data: &[u8]) -> (r: u64)
    ensures
        r == keyed_digest_spec(key, data@),
{
    let h: u64 = absorb(mix64(key), data);
    mix64(h ^ (data.len() as u64))
}

} // verus!
