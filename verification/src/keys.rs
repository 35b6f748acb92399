//! Key material: its encoding, its two roles, and its generation.
//!
//! A key is nine bytes: one byte that names the role, then a 64-bit
//! little-endian word. For a secret key the word is a scalar, for a public
//! key it is the role's base raised to that scalar. The two roles use
//! different bases, and every engine checks the role byte, so that a key made
//! for one role is refused by the other.
//!
//! Each base generates the whole group. So a public key belongs to exactly
//! one secret key, and no secret key leads to a degenerate public key.
use crate::encoding::lemma_word_bytes_injective;
use crate::entropy::os_entropy;
use crate::error::CryptoError;
use crate::field::{pow_mod, pow_mod_spec, MODULUS};
use crate::generators::{lemma_five_generates, lemma_seventeen_generates};
use crate::group::{generates, lemma_power_injective, lemma_power_not_degenerate};
use vstd::bytes::{
    lemma_auto_spec_u64_to_from_le_bytes, spec_u64_from_le_bytes, spec_u64_to_le_bytes,
    u64_from_le_bytes, u64_to_le_bytes,
};
use vstd::prelude::*;
use vstd::slice::slice_subrange;

verus! {

/// The length of a key, public or secret, in bytes.
pub const KEY_LEN: usize = 9;

/// The length of the seed from which a key pair is made, in bytes.
pub const SEED_LEN: usize = 8;

/// What a key pair is for.
#[derive(Clone, Copy, Debug, PartialEq, Eq, Structural)]
pub enum KeyRole {
    /// Receiving encrypted messages.
    Encryption,
    /// Signing messages.
    Signature,
}

impl KeyRole {
    /// The byte that opens every key of this role.
    pub open spec fn tag_spec(self) -> u8 {
        match self {
            KeyRole::Encryption => 1,
            KeyRole::Signature => 2,
        }
    }

    /// The group element whose powers are this role's public keys.
    pub open spec fn base_spec(self) -> u64 {
        match self {
            KeyRole::Encryption => 5,
            KeyRole::Signature => 17,
        }
    }

    /// The byte that opens every key of this role.
    pub fn tag(self) -> (r: u8)
        ensures
            r == self.tag_spec(),
    {
        match self {
            KeyRole::Encryption => 1,
            KeyRole::Signature => 2,
        }
    }

    /// The group element whose powers are this role's public keys.
    pub fn base(self) -> (r: u64)
        ensures
            r == self.base_spec(),
            r < MODULUS,
    {
        match self {
            KeyRole::Encryption => 5,
            KeyRole::Signature => 17,
        }
    }
}

/// A public key and the secret key it was derived from.
#[derive(Clone, Debug)]
pub struct KeyPair {
    /// The key to hand out: others encrypt to it, or verify with it.
    pub public_key: Vec<u8>,
    /// The key to keep: it decrypts, or signs.
    pub secret_key: Vec<u8>,
}

/// The two byte strings of a key pair.
pub struct KeyPairView {
    pub public_key: Seq<u8>,
    pub secret_key: Seq<u8>,
}

impl View for KeyPair {
    type V = KeyPairView;

    open spec fn view(&self) -> KeyPairView {
        KeyPairView { public_key: self.public_key@, secret_key: self.secret_key@ }
    }
}

/// The encoding of the word `value` as a key of `role`.
pub open spec fn encode_key_spec(role: KeyRole, value: u64) -> Seq<u8> {
    seq![role.tag_spec()] + spec_u64_to_le_bytes(value)
}

/// The word that a key carries behind its role byte.
pub open spec fn key_word(key: Seq<u8>) -> u64 {
    spec_u64_from_le_bytes(key.subrange(1, KEY_LEN as int))
}

/// Whether `key` has the shape of a key of `role`: the length and the role
/// byte.
pub open spec fn has_role(role: KeyRole, key: Seq<u8>) -> bool {
    key.len() == KEY_LEN && key[0] == role.tag_spec()
}

/// Whether `key` is a secret key of `role`: its scalar lies between 2 and
/// the modulus less 2.
pub open spec fn is_secret_key(role: KeyRole, key: Seq<u8>) -> bool {
    has_role(role, key) && 2 <= key_word(key) <= MODULUS - 2
}

/// Whether `key` is a public key of `role`: its word is a residue other
/// than 0 and 1, the two elements that no exchange may be built on.
pub open spec fn is_public_key(role: KeyRole, key: Seq<u8>) -> bool {
    has_role(role, key) && 2 <= key_word(key) < MODULUS
}

/// The public key that belongs to the secret key `secret`.
pub open spec fn public_of(role: KeyRole, secret: Seq<u8>) -> Seq<u8> {
    encode_key_spec(role, pow_mod_spec(role.base_spec() as nat, key_word(secret) as nat) as u64)
}

/// Whether `pair` is a secret key of `role` together with the public key
/// derived from it.
pub open spec fn is_key_pair(role: KeyRole, pair: KeyPairView) -> bool {
    is_secret_key(role, pair.secret_key) && pair.public_key == public_of(role, pair.secret_key)
}

/// The scalar chosen by eight bytes of seed: the seed, read as a
/// little-endian word, folded into the range of secret scalars.
pub open spec fn scalar_of_seed(seed: Seq<u8>) -> u64 {
    (2 + spec_u64_from_le_bytes(seed) % ((MODULUS - 3) as u64)) as u64
}

/// The key pair of `role` that the seed determines.
pub open spec fn key_pair_of_seed(role: KeyRole, seed: Seq<u8>) -> KeyPairView {
    let secret = encode_key_spec(role, scalar_of_seed(seed));
    KeyPairView { public_key: public_of(role, secret), secret_key: secret }
}

/// A key decodes to the word it was encoded from, and has its role's shape.
pub proof fn lemma_encode_key(role: KeyRole, value: u64)
    ensures
        has_role(role, encode_key_spec(role, value)),
        key_word(encode_key_spec(role, value)) == value,
{
    lemma_auto_spec_u64_to_from_le_bytes();
    let key = encode_key_spec(role, value);
    assert(key.subrange(1, KEY_LEN as int) =~= spec_u64_to_le_bytes(value));
}

/// Two keys of one role that carry the same word are the same key.
pub proof fn lemma_key_word_injective(role: KeyRole, a: Seq<u8>, b: Seq<u8>)
    requires
        has_role(role, a),
        has_role(role, b),
        key_word(a) == key_word(b),
    ensures
        a == b,
{
    let wa = a.subrange(1, KEY_LEN as int);
    let wb = b.subrange(1, KEY_LEN as int);
    lemma_word_bytes_injective(wa, wb);
    assert forall|i: int| 0 <= i < a.len() implies a[i] == b[i] by {
        if i > 0 {
            assert(a[i] == wa[i - 1]);
            assert(b[i] == wb[i - 1]);
        }
    }
    assert(a =~= b);
}

/// The base of each role generates the whole group.
pub proof fn lemma_base_generates(role: KeyRole)
    ensures
        generates(role.base_spec() as nat),
{
    lemma_five_generates();
    lemma_seventeen_generates();
}

/// Every seed determines a well-formed key pair.
pub proof fn lemma_key_pair_of_seed(role: KeyRole, seed: Seq<u8>)
    ensures
        is_key_pair(role, key_pair_of_seed(role, seed)),
{
    lemma_encode_key(role, scalar_of_seed(seed));
}

/// The public key derived from a secret key is a public key of the role,
/// and carries the base raised to the secret scalar: never 0, never 1.
pub proof fn lemma_public_of(role: KeyRole, secret: Seq<u8>)
    requires
        is_secret_key(role, secret),
    ensures
        is_public_key(role, public_of(role, secret)),
        key_word(public_of(role, secret)) == pow_mod_spec(
            role.base_spec() as nat,
            key_word(secret) as nat,
        ),
{
    let y = pow_mod_spec(role.base_spec() as nat, key_word(secret) as nat);
    lemma_base_generates(role);
    lemma_power_not_degenerate(role.base_spec() as nat, key_word(secret) as nat);
    lemma_encode_key(role, y as u64);
}

/// Two secret keys of one role with the same public key are the same key.
pub proof fn lemma_public_of_injective(role: KeyRole, first: Seq<u8>, second: Seq<u8>)
    requires
        is_secret_key(role, first),
        is_secret_key(role, second),
        public_of(role, first) == public_of(role, second),
    ensures
        first == second,
{
    lemma_public_of(role, first);
    lemma_public_of(role, second);
    lemma_base_generates(role);
    lemma_power_injective(
        role.base_spec() as nat,
        key_word(first) as nat,
        key_word(second) as nat,
    );
    lemma_key_word_injective(role, first, second);
}

/// Encodes the word `value` as a key of `role`.
pub fn encode_key(role: KeyRole, value: u64) -> (key: Vec<u8>)
    ensures
        key@ == encode_key_spec(role, value),
{
    let mut key: Vec<u8> = Vec::new();
    key.push(role.tag());
    let word = u64_to_le_bytes(value);
    key.extend_from_slice(word.as_slice());
    proof {
        assert(key@ =~= encode_key_spec(role, value));
    }
    key
}

/// Reads the word of a key, if the key has the shape of a key of `role`.
pub fn decode_key(role: KeyRole, key: &[u8]) -> (r: Option<u64>)
    ensures
        has_role(role, key@) ==> r == Some(key_word(key@)),
        !has_role(role, key@) ==> r.is_none(),
{
    if key.len() != KEY_LEN {
        return None;
    }
    if key[0] != role.tag() {
        return None;
    }
    Some(u64_from_le_bytes(slice_subrange(key, 1, KEY_LEN)))
}

/// Reads the scalar of a secret key of `role`, if `key` is one.
pub fn decode_secret_key(role: KeyRole, key: &[u8]) -> (r: Option<u64>)
    ensures
        is_secret_key(role, key@) ==> r == Some(key_word(key@)),
        !is_secret_key(role, key@) ==> r.is_none(),
{
    match decode_key(role, key) {
        Some(scalar) => {
            if 2 <= scalar && scalar <= MODULUS - 2 {
                Some(scalar)
            } else {
                None
            }
        },
        None => None,
    }
}

/// Reads the group element of a public key of `role`, if `key` is one.
pub fn decode_public_key(role: KeyRole, key: &[u8]) -> (r: Option<u64>)
    ensures
        is_public_key(role, key@) ==> r == Some(key_word(key@)),
        !is_public_key(role, key@) ==> r.is_none(),
{
    match decode_key(role, key) {
        Some(element) => {
            if 2 <= element && element < MODULUS {
                Some(element)
            } else {
                None
            }
        },
        None => None,
    }
}

/// Folds eight bytes of seed into the range of secret scalars.
pub(crate) fn scalar_from_seed(seed: &[u8]) -> (scalar: u64)
    requires
        seed@.len() == SEED_LEN,
    ensures
        scalar == scalar_of_seed(seed@),
        2 <= scalar <= MODULUS - 2,
{
    let word: u64 = u64_from_le_bytes(seed);
    2 + word % (MODULUS - 3)
}

impl KeyPair {
    /// Makes the key pair of `role` that `seed` determines.
    ///
    /// The seed must have [`SEED_LEN`] bytes; any other length is reported
    /// as a generation failure.
    pub fn from_seed(role: KeyRole, seed: &[u8]) -> (r: Result<KeyPair, CryptoError>)
        ensures
            seed@.len() != SEED_LEN ==> r == Err::<KeyPair, CryptoError>(
                CryptoError::GenerationFailure,
            ),
            seed@.len() == SEED_LEN ==> (r matches Ok(pair) && pair@ == key_pair_of_seed(
                role,
                seed@,
            )),
    {
        if seed.len() != SEED_LEN {
            return Err(CryptoError::GenerationFailure);
        }
        let scalar = scalar_from_seed(seed);
        let secret_key = encode_key(role, scalar);
        let element = pow_mod(role.base(), scalar as u128);
        let public_key = encode_key(role, element);
        proof {
            lemma_encode_key(role, scalar);
        }
        Ok(KeyPair { public_key, secret_key })
    }

    /// Makes a fresh key pair of `role` from the operating system's
    /// randomness.
    ///
    /// Whatever the random source hands back, a pair that is returned is
    /// well formed. The call fails only when the source fails.
    pub fn generate(role: KeyRole) -> (r: Result<KeyPair, CryptoError>)
        ensures
            match r {
                Ok(pair) => is_key_pair(role, pair@) && exists|seed: Seq<u8>|
                    seed.len() == SEED_LEN && pair@ == #[trigger] key_pair_of_seed(role, seed),
                Err(e) => e == CryptoError::GenerationFailure,
            },
    {
        match os_entropy(SEED_LEN) {
            Ok(seed) => {
                proof {
                    lemma_key_pair_of_seed(role, seed@);
                }
                KeyPair::from_seed(role, seed.as_slice())
            },
            Err(_) => Err(CryptoError::GenerationFailure),
        }
    }

    /// Makes a fresh key pair for receiving encrypted messages.
    pub fn new_kem() -> (r: Result<KeyPair, CryptoError>)
        ensures
            match r {
                Ok(pair) => is_key_pair(KeyRole::Encryption, pair@),
                Err(e) => e == CryptoError::GenerationFailure,
            },
    {
        KeyPair::generate(KeyRole::Encryption)
    }

    /// Makes a fresh key pair for signing.
    pub fn new_sig() -> (r: Result<KeyPair, CryptoError>)
        ensures
            match r {
                Ok(pair) => is_key_pair(KeyRole::Signature, pair@),
                Err(e) => e == CryptoError::GenerationFailure,
            },
    {
        KeyPair::generate(KeyRole::Signature)
    }
}

} // verus!
