//! What holds of the engines taken together.
//!
//! Each law is stated over the models that the engines' contracts use, so it
//! holds of every result that the executable functions return.
use crate::cipher::{lemma_payload_parts, lemma_tampered_payload_refused, payload_nonce};
use crate::encoding::{differ_in_one_byte, lemma_window_after_change};
use crate::error::CryptoError;
use crate::field::{lemma_pow_mod_bound, lemma_pow_mod_sum, lemma_pow_mod_tower, pow_mod_spec};
use crate::group::{lemma_power_congruence, lemma_power_injective, ORDER};
use crate::hybrid::{
    encapsulated_recipient, encrypt_spec, entropy_nonce, ephemeral_scalar, is_encryption_of,
    lemma_encapsulation_parts, lemma_open_seal, lemma_shared_secret_agrees, open, seal,
    seal_for_spec, sender_secret, share_spec, EncryptedMessageView, ENTROPY_LEN,
    MAX_PLAINTEXT_LEN,
};
use crate::keys::{
    is_key_pair, is_public_key, is_secret_key, key_pair_of_seed, key_word, lemma_base_generates,
    lemma_encode_key, lemma_key_pair_of_seed, lemma_key_word_injective, lemma_public_of,
    lemma_public_of_injective, scalar_of_seed, KeyPairView, KeyRole, SEED_LEN,
};
use crate::signature::{
    accepts, challenge_spec, lemma_response_meets_target, nonce_spec, sign_spec,
    signature_commitment, signature_response, signature_spec, verification_target, verify_spec,
};
use vstd::arithmetic::div_mod::{lemma_add_mod_noop, lemma_sub_mod_noop};
use vstd::prelude::*;

verus! {

/// Key pairs are sound: the public key of a pair is well formed, never
/// degenerate, and belongs to no other secret key of the role.
pub proof fn law_public_key_has_one_secret_key(role: KeyRole, pair: KeyPairView, other: KeyPairView)
    requires
        is_key_pair(role, pair),
        is_key_pair(role, other),
    ensures
        is_public_key(role, pair.public_key),
        2 <= key_word(pair.public_key),
        (other.public_key == pair.public_key) == (other.secret_key == pair.secret_key),
        (other.public_key == pair.public_key) == (other == pair),
{
    lemma_public_of(role, pair.secret_key);
    if other.public_key == pair.public_key {
        lemma_public_of_injective(role, pair.secret_key, other.secret_key);
    }
}

/// Generation from a seed never fails for want of a usable key: every seed
/// of the right length determines a well-formed pair with a well-formed
/// public key.
pub proof fn law_every_seed_gives_a_key_pair(role: KeyRole, seed: Seq<u8>)
    requires
        seed.len() == SEED_LEN,
    ensures
        is_key_pair(role, key_pair_of_seed(role, seed)),
        is_secret_key(role, key_pair_of_seed(role, seed).secret_key),
        is_public_key(role, key_pair_of_seed(role, seed).public_key),
{
    lemma_key_pair_of_seed(role, seed);
    lemma_public_of(role, key_pair_of_seed(role, seed).secret_key);
}

/// Round trip: what was encrypted for a key pair's public key, with any
/// entropy, is decrypted by the pair's secret key to the plaintext.
pub proof fn law_round_trip(plaintext: Seq<u8>, pair: KeyPairView, entropy: Seq<u8>)
    requires
        is_key_pair(KeyRole::Encryption, pair),
        plaintext.len() <= MAX_PLAINTEXT_LEN,
        entropy.len() == ENTROPY_LEN,
    ensures
        encrypt_spec(plaintext, pair.public_key, entropy) == Ok::<
            EncryptedMessageView,
            CryptoError,
        >(seal(plaintext, pair.public_key, entropy)),
        open(seal(plaintext, pair.public_key, entropy), pair.secret_key) == Some(plaintext),
{
    lemma_public_of(KeyRole::Encryption, pair.secret_key);
    lemma_open_seal(plaintext, pair.secret_key, entropy);
}

/// Round trip, for a message whose entropy is not known: every encryption
/// of a plaintext for a key pair's public key is decrypted by the pair's
/// secret key to that plaintext.
pub proof fn law_every_encryption_opens(
    message: EncryptedMessageView,
    plaintext: Seq<u8>,
    pair: KeyPairView,
)
    requires
        is_key_pair(KeyRole::Encryption, pair),
        is_encryption_of(message, plaintext, pair.public_key),
    ensures
        open(message, pair.secret_key) == Some(plaintext),
{
    let entropy = choose|entropy: Seq<u8>|
        entropy.len() == ENTROPY_LEN && message == #[trigger] seal(
            plaintext,
            pair.public_key,
            entropy,
        );
    lemma_open_seal(plaintext, pair.secret_key, entropy);
}

/// Wrong-key rejection: a message encrypted for one key pair is refused by
/// the secret key of every other key pair.
pub proof fn law_wrong_key_rejected(
    plaintext: Seq<u8>,
    pair: KeyPairView,
    other: KeyPairView,
    entropy: Seq<u8>,
)
    requires
        is_key_pair(KeyRole::Encryption, pair),
        is_key_pair(KeyRole::Encryption, other),
        other != pair,
    ensures
        open(seal(plaintext, pair.public_key, entropy), other.secret_key).is_none(),
{
    reveal(seal_for_spec);
    reveal(open);
    let role = KeyRole::Encryption;
    law_public_key_has_one_secret_key(role, pair, other);
    lemma_public_of(role, pair.secret_key);
    lemma_public_of(role, other.secret_key);
    let recipient = key_word(pair.public_key);
    lemma_encapsulation_parts(share_spec(ephemeral_scalar(entropy)), recipient);
    if recipient == share_spec(key_word(other.secret_key)) {
        lemma_key_word_injective(role, pair.public_key, other.public_key);
    }
}

/// Tamper detection, ciphertext: a message in whose ciphertext one byte
/// was changed, be it in the nonce, the body or the tag, is refused by the
/// secret key it was encrypted for. A flip of a single bit is such a change.
pub proof fn law_tampered_ciphertext_rejected(
    plaintext: Seq<u8>,
    pair: KeyPairView,
    entropy: Seq<u8>,
    tampered: Seq<u8>,
    at: int,
)
    requires
        is_key_pair(KeyRole::Encryption, pair),
        differ_in_one_byte(seal(plaintext, pair.public_key, entropy).ciphertext, tampered, at),
    ensures
        open(
            (EncryptedMessageView {
                ciphertext: tampered,
                encapsulated_key: seal(plaintext, pair.public_key, entropy).encapsulated_key,
            }),
            pair.secret_key,
        ).is_none(),
{
    lemma_shared_secret_agrees(plaintext, pair.secret_key, entropy, tampered);
    lemma_tampered_payload_refused(
        sender_secret(pair.public_key, entropy),
        share_spec(ephemeral_scalar(entropy)),
        entropy_nonce(entropy),
        plaintext,
        tampered,
        at,
    );
}

/// Tamper detection, addressee: a message in whose encapsulated key one
/// byte of the recipient's element was changed is refused by the secret key
/// it was encrypted for.
pub proof fn law_tampered_addressee_rejected(
    plaintext: Seq<u8>,
    pair: KeyPairView,
    entropy: Seq<u8>,
    tampered: Seq<u8>,
    at: int,
)
    requires
        is_key_pair(KeyRole::Encryption, pair),
        differ_in_one_byte(
            seal(plaintext, pair.public_key, entropy).encapsulated_key,
            tampered,
            at,
        ),
        at >= 8,
    ensures
        open(
            (EncryptedMessageView {
                ciphertext: seal(plaintext, pair.public_key, entropy).ciphertext,
                encapsulated_key: tampered,
            }),
            pair.secret_key,
        ).is_none(),
{
    reveal(seal_for_spec);
    reveal(open);
    let role = KeyRole::Encryption;
    let sealed = seal(plaintext, pair.public_key, entropy);
    let recipient = key_word(pair.public_key);
    lemma_public_of(role, pair.secret_key);
    lemma_encapsulation_parts(share_spec(ephemeral_scalar(entropy)), recipient);
    lemma_window_after_change(sealed.encapsulated_key, tampered, at, 8);
    assert(encapsulated_recipient(tampered) != recipient);
}

/// Unlinkability: two encryptions of one plaintext for one public key whose
/// entropy gives different nonces have different ciphertexts, and their
/// encapsulated keys are the same exactly when the entropy gives the same
/// ephemeral scalar.
pub proof fn law_fresh_nonce_fresh_ciphertext(
    plaintext: Seq<u8>,
    public_key: Seq<u8>,
    first: Seq<u8>,
    second: Seq<u8>,
)
    ensures
        entropy_nonce(first) != entropy_nonce(second) ==> seal(
            plaintext,
            public_key,
            first,
        ).ciphertext != seal(plaintext, public_key, second).ciphertext,
        (seal(plaintext, public_key, first).encapsulated_key == seal(
            plaintext,
            public_key,
            second,
        ).encapsulated_key) == (ephemeral_scalar(first) == ephemeral_scalar(second)),
{
    reveal(seal_for_spec);
    let recipient = key_word(public_key);
    let a = ephemeral_scalar(first);
    let b = ephemeral_scalar(second);
    lemma_encapsulation_parts(share_spec(a), recipient);
    lemma_encapsulation_parts(share_spec(b), recipient);
    lemma_base_generates(KeyRole::Encryption);
    if share_spec(a) == share_spec(b) {
        lemma_pow_mod_bound(KeyRole::Encryption.base_spec() as nat, a as nat);
        lemma_pow_mod_bound(KeyRole::Encryption.base_spec() as nat, b as nat);
        lemma_power_injective(KeyRole::Encryption.base_spec() as nat, a as nat, b as nat);
    }
    lemma_payload_parts(
        pow_mod_spec(recipient as nat, a as nat) as u64,
        share_spec(a),
        entropy_nonce(first),
        plaintext,
    );
    lemma_payload_parts(
        pow_mod_spec(recipient as nat, b as nat) as u64,
        share_spec(b),
        entropy_nonce(second),
        plaintext,
    );
    assert(payload_nonce(seal(plaintext, public_key, first).ciphertext) == entropy_nonce(first));
    assert(payload_nonce(seal(plaintext, public_key, second).ciphertext) == entropy_nonce(second));
}

/// Key distinctness: two seeds give the same secret key, and the same
/// public key, exactly when they choose the same scalar.
pub proof fn law_distinct_scalars_distinct_keys(role: KeyRole, first: Seq<u8>, second: Seq<u8>)
    ensures
        (key_pair_of_seed(role, first).secret_key == key_pair_of_seed(role, second).secret_key)
            == (scalar_of_seed(first) == scalar_of_seed(second)),
        (key_pair_of_seed(role, first).public_key == key_pair_of_seed(role, second).public_key)
            == (scalar_of_seed(first) == scalar_of_seed(second)),
{
    lemma_encode_key(role, scalar_of_seed(first));
    lemma_encode_key(role, scalar_of_seed(second));
    lemma_key_pair_of_seed(role, first);
    lemma_key_pair_of_seed(role, second);
    law_public_key_has_one_secret_key(
        role,
        key_pair_of_seed(role, first),
        key_pair_of_seed(role, second),
    );
}

/// Signature validity: the signature that a key pair's secret key makes of
/// a message is accepted for that message under the pair's public key.
pub proof fn law_honest_signature_verifies(message: Seq<u8>, pair: KeyPairView)
    requires
        is_key_pair(KeyRole::Signature, pair),
    ensures
        sign_spec(message, pair.secret_key) == Ok::<Seq<u8>, CryptoError>(
            signature_spec(message, pair.secret_key),
        ),
        verify_spec(message, signature_spec(message, pair.secret_key), pair.public_key) == Ok::<
            bool,
            CryptoError,
        >(true),
{
    reveal(accepts);
    lemma_public_of(KeyRole::Signature, pair.secret_key);
    lemma_response_meets_target(message, pair.secret_key);
}

/// Forgery rejection, other key: a signature made with one key pair is not
/// accepted under the public key of any other key pair.
pub proof fn law_other_key_rejects(message: Seq<u8>, pair: KeyPairView, other: KeyPairView)
    requires
        is_key_pair(KeyRole::Signature, pair),
        is_key_pair(KeyRole::Signature, other),
        other != pair,
    ensures
        verify_spec(message, signature_spec(message, pair.secret_key), other.public_key) == Ok::<
            bool,
            CryptoError,
        >(false),
{
    reveal(accepts);
    let role = KeyRole::Signature;
    law_public_key_has_one_secret_key(role, pair, other);
    lemma_public_of(role, pair.secret_key);
    lemma_public_of(role, other.secret_key);
    lemma_response_meets_target(message, pair.secret_key);
    if key_word(pair.public_key) == key_word(other.public_key) {
        lemma_key_word_injective(role, pair.public_key, other.public_key);
    }
}

/// Tamper detection, signer: a signature in which one byte of the signer's
/// element was changed is not accepted.
pub proof fn law_tampered_signer_rejected(
    message: Seq<u8>,
    pair: KeyPairView,
    tampered: Seq<u8>,
    at: int,
)
    requires
        is_key_pair(KeyRole::Signature, pair),
        differ_in_one_byte(signature_spec(message, pair.secret_key), tampered, at),
        at < 8,
    ensures
        verify_spec(message, tampered, pair.public_key) == Ok::<bool, CryptoError>(false),
{
    reveal(accepts);
    lemma_public_of(KeyRole::Signature, pair.secret_key);
    lemma_response_meets_target(message, pair.secret_key);
    lemma_window_after_change(signature_spec(message, pair.secret_key), tampered, at, 0);
}

/// Tamper detection, response: a signature in which one byte of the
/// response was changed is not accepted.
pub proof fn law_tampered_response_rejected(
    message: Seq<u8>,
    pair: KeyPairView,
    tampered: Seq<u8>,
    at: int,
)
    requires
        is_key_pair(KeyRole::Signature, pair),
        differ_in_one_byte(signature_spec(message, pair.secret_key), tampered, at),
        at >= 16,
    ensures
        verify_spec(message, tampered, pair.public_key) == Ok::<bool, CryptoError>(false),
{
    reveal(accepts);
    let role = KeyRole::Signature;
    let signature = signature_spec(message, pair.secret_key);
    lemma_public_of(role, pair.secret_key);
    lemma_response_meets_target(message, pair.secret_key);
    lemma_window_after_change(signature, tampered, at, 0);
    lemma_window_after_change(signature, tampered, at, 8);
    lemma_window_after_change(signature, tampered, at, 16);
    // signer and commitment are as they were, so the target is the same,
    // and no other reduced response leads to it
    lemma_base_generates(role);
    if signature_response(tampered) < ORDER {
        if pow_mod_spec(role.base_spec() as nat, signature_response(tampered) as nat)
            == pow_mod_spec(role.base_spec() as nat, signature_response(signature) as nat) {
            lemma_power_injective(
                role.base_spec() as nat,
                signature_response(tampered) as nat,
                signature_response(signature) as nat,
            );
        }
    }
}

/// Forgery rejection, other message: a signature made of one message is
/// accepted for another exactly when the challenges that the two messages
/// draw, each multiplied by the secret scalar, leave the same remainder by
/// the order of the group. In particular it is rejected whenever they do
/// not, and a message that draws the same challenge is accepted.
pub proof fn law_other_message_rejects(message: Seq<u8>, other: Seq<u8>, pair: KeyPairView)
    requires
        is_key_pair(KeyRole::Signature, pair),
    ensures
        ({
            let signature = signature_spec(message, pair.secret_key);
            let commitment = signature_commitment(signature);
            let element = key_word(pair.public_key);
            let scalar = key_word(pair.secret_key);
            let signed = challenge_spec(commitment, element, message);
            let drawn = challenge_spec(commitment, element, other);
            verify_spec(other, signature, pair.public_key) == Ok::<bool, CryptoError>(
                (drawn * scalar) % (ORDER as int) == (signed * scalar) % (ORDER as int),
            )
        }),
{
    reveal(accepts);
    let role = KeyRole::Signature;
    let base = role.base_spec() as nat;
    let signature = signature_spec(message, pair.secret_key);
    let commitment = signature_commitment(signature);
    let element = key_word(pair.public_key);
    let scalar = key_word(pair.secret_key) as nat;
    let nonce = nonce_spec(key_word(pair.secret_key), message) as nat;
    let signed = challenge_spec(commitment, element, message) as nat;
    let drawn = challenge_spec(commitment, element, other) as nat;
    lemma_public_of(role, pair.secret_key);
    lemma_response_meets_target(message, pair.secret_key);
    lemma_base_generates(role);
    // each target is the base raised to nonce + scalar * challenge
    lemma_pow_mod_tower(base, scalar, signed);
    lemma_pow_mod_tower(base, scalar, drawn);
    lemma_pow_mod_sum(base, nonce, scalar * signed);
    lemma_pow_mod_sum(base, nonce, scalar * drawn);
    assert(signed * scalar == scalar * signed) by (nonlinear_arith);
    assert(pow_mod_spec(base, signature_response(signature) as nat) == pow_mod_spec(
        base,
        nonce + scalar * signed,
    ));
    assert(verification_target(commitment, element, other) == pow_mod_spec(
        base,
        nonce + scalar * drawn,
    ));
    lemma_power_congruence(base, nonce + scalar * signed, nonce + scalar * drawn);
    let n = ORDER as int;
    let a = (scalar * signed) as int;
    let b = (scalar * drawn) as int;
    assert(((nonce + a) % n == (nonce + b) % n) == (a % n == b % n)) by {
        lemma_congruence_shift(nonce as int, a, b, n);
    }
    assert(drawn * scalar == scalar * drawn && signed * scalar == scalar * signed)
        by (nonlinear_arith);
}

/// Adding the same number to both sides keeps and reflects a congruence.
proof fn lemma_congruence_shift(k: int, a: int, b: int, n: int)
    requires
        n > 0,
    ensures
        ((k + a) % n == (k + b) % n) == (a % n == b % n),
{
    lemma_add_mod_noop(k, a, n);
    lemma_add_mod_noop(k, b, n);
    lemma_sub_mod_noop(k + a, k, n);
    lemma_sub_mod_noop(k + b, k, n);
    assert((k + a) - k == a && (k + b) - k == b);
}

/// Role separation: a key of one role is refused by the engine of the
/// other, whatever the rest of the input.
pub proof fn law_roles_do_not_mix(
    text: Seq<u8>,
    blob: Seq<u8>,
    message: EncryptedMessageView,
    encryption: KeyPairView,
    signing: KeyPairView,
)
    requires
        is_key_pair(KeyRole::Encryption, encryption),
        is_key_pair(KeyRole::Signature, signing),
    ensures
        encrypt_spec(text, signing.public_key, blob) == Err::<EncryptedMessageView, CryptoError>(
            CryptoError::InvalidPublicKey,
        ),
        open(message, signing.secret_key).is_none(),
        sign_spec(text, encryption.secret_key) == Err::<Seq<u8>, CryptoError>(
            CryptoError::InvalidSecretKey,
        ),
        verify_spec(text, blob, encryption.public_key) == Err::<bool, CryptoError>(
            CryptoError::InvalidPublicKey,
        ),
{
    reveal(open);
    lemma_public_of(KeyRole::Encryption, encryption.secret_key);
    lemma_public_of(KeyRole::Signature, signing.secret_key);
}

} // verus!
