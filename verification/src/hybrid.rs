//! Hybrid encryption: a key exchange that encapsulates a shared secret under
//! the recipient's public key, and the symmetric sealing of the plaintext
//! under that secret.
//!
//! The encapsulated key is the sender's share of the exchange followed by the
//! recipient's group element, eight bytes each. The recipient's element says
//! for whom the message is: a secret key that does not belong to it is
//! refused before any key is derived.
use crate::cipher::{
    lemma_open_sealed_payload, open_payload, open_payload_spec, seal_payload, seal_payload_spec,
};
use crate::entropy::os_entropy;
use crate::error::CryptoError;
use crate::field::{
    lemma_pow_mod_bound, lemma_pow_mod_tower, pow_mod, pow_mod_spec, MODULUS,
};
use crate::keys::{
    decode_public_key, decode_secret_key, is_public_key, is_secret_key, key_word, lemma_public_of,
    public_of, scalar_from_seed, scalar_of_seed, KeyRole, SEED_LEN,
};
use vstd::bytes::{
    lemma_auto_spec_u64_to_from_le_bytes, spec_u64_from_le_bytes, spec_u64_to_le_bytes,
    u64_from_le_bytes, u64_to_le_bytes,
};
use vstd::prelude::*;
use vstd::slice::slice_subrange;

verus! {

/// The entropy that one encryption consumes, in bytes: eight for the
/// ephemeral scalar, eight for the nonce.
pub const ENTROPY_LEN: usize = 16;

/// The length of an encapsulated key, in bytes.
pub const ENCAPSULATION_LEN: usize = 16;

/// The longest plaintext that one encryption accepts, in bytes.
pub const MAX_PLAINTEXT_LEN: usize = 1048576;

/// An encrypted message: the sealed payload and the encapsulated key.
#[derive(Clone, Debug)]
pub struct EncryptedMessage {
    /// The sealed payload: nonce, masked plaintext, tag.
    pub ciphertext: Vec<u8>,
    /// The sender's share of the exchange and the recipient's element.
    pub encapsulated_key: Vec<u8>,
}

/// The two byte strings of an encrypted message.
pub struct EncryptedMessageView {
    pub ciphertext: Seq<u8>,
    pub encapsulated_key: Seq<u8>,
}

impl View for EncryptedMessage {
    type V = EncryptedMessageView;

    open spec fn view(&self) -> EncryptedMessageView {
        EncryptedMessageView {
            ciphertext: self.ciphertext@,
            encapsulated_key: self.encapsulated_key@,
        }
    }
}

/// The ephemeral scalar that the entropy determines.
pub open spec fn ephemeral_scalar(entropy: Seq<u8>) -> u64 {
    scalar_of_seed(entropy.subrange(0, SEED_LEN as int))
}

/// The nonce that the entropy determines.
pub open spec fn entropy_nonce(entropy: Seq<u8>) -> u64 {
    spec_u64_from_le_bytes(entropy.subrange(SEED_LEN as int, ENTROPY_LEN as int))
}

/// The sender's share of the exchange: the base raised to the ephemeral
/// scalar.
pub open spec fn share_spec(scalar: u64) -> u64 {
    pow_mod_spec(KeyRole::Encryption.base_spec() as nat, scalar as nat) as u64
}

/// The encapsulated key: the sender's share, then the recipient's element.
pub open spec fn encapsulation_spec(share: u64, recipient: u64) -> Seq<u8> {
    spec_u64_to_le_bytes(share) + spec_u64_to_le_bytes(recipient)
}

/// The sender's share that an encapsulated key carries.
pub open spec fn encapsulated_share(encapsulated_key: Seq<u8>) -> u64 {
    spec_u64_from_le_bytes(encapsulated_key.subrange(0, 8))
}

/// The recipient's element that an encapsulated key carries.
pub open spec fn encapsulated_recipient(encapsulated_key: Seq<u8>) -> u64 {
    spec_u64_from_le_bytes(encapsulated_key.subrange(8, ENCAPSULATION_LEN as int))
}

/// The message that encrypting `plaintext` for the group element
/// `recipient` gives when the randomness drawn is `entropy`.
#[verifier::opaque]
pub open spec fn seal_for_spec(plaintext: Seq<u8>, recipient: u64, entropy: Seq<u8>)
    -> EncryptedMessageView {
    let scalar = ephemeral_scalar(entropy);
    let share = share_spec(scalar);
    let shared = pow_mod_spec(recipient as nat, scalar as nat) as u64;
    EncryptedMessageView {
        ciphertext: seal_payload_spec(shared, share, entropy_nonce(entropy), plaintext),
        encapsulated_key: encapsulation_spec(share, recipient),
    }
}

/// The message that encrypting `plaintext` for `public_key` gives when the
/// randomness drawn is `entropy`.
pub open spec fn seal(plaintext: Seq<u8>, public_key: Seq<u8>, entropy: Seq<u8>)
    -> EncryptedMessageView {
    seal_for_spec(plaintext, key_word(public_key), entropy)
}

/// What encryption returns on each input: the first check that fails names
/// the error.
pub open spec fn encrypt_spec(plaintext: Seq<u8>, public_key: Seq<u8>, entropy: Seq<u8>) -> Result<
    EncryptedMessageView,
    CryptoError,
> {
    if !is_public_key(KeyRole::Encryption, public_key) {
        Err(CryptoError::InvalidPublicKey)
    } else if plaintext.len() > MAX_PLAINTEXT_LEN {
        Err(CryptoError::PlaintextTooLarge)
    } else if entropy.len() != ENTROPY_LEN {
        Err(CryptoError::GenerationFailure)
    } else {
        Ok(seal(plaintext, public_key, entropy))
    }
}

/// Whether `message` is an encryption of `plaintext` for `public_key` under
/// some draw of entropy.
pub open spec fn is_encryption_of(
    message: EncryptedMessageView,
    plaintext: Seq<u8>,
    public_key: Seq<u8>,
) -> bool {
    exists|entropy: Seq<u8>|
        entropy.len() == ENTROPY_LEN && message == #[trigger] seal(plaintext, public_key, entropy)
}

/// The plaintext that `secret_key` recovers from `message`, if any.
///
/// Nothing is recovered unless the key is a secret key for encryption, the
/// encapsulated key has its length and a reduced share, the message is
/// addressed to this key, and the payload's tag holds.
#[verifier::opaque]
pub open spec fn open(message: EncryptedMessageView, secret_key: Seq<u8>) -> Option<Seq<u8>> {
    let share = encapsulated_share(message.encapsulated_key);
    let scalar = key_word(secret_key);
    if !is_secret_key(KeyRole::Encryption, secret_key) {
        None
    } else if message.encapsulated_key.len() != ENCAPSULATION_LEN {
        None
    } else if share >= MODULUS {
        None
    } else if encapsulated_recipient(message.encapsulated_key) != share_spec(scalar) {
        None
    } else {
        open_payload_spec(
            pow_mod_spec(share as nat, scalar as nat) as u64,
            share,
            message.ciphertext,
        )
    }
}

/// The two halves of an encapsulated key are read back as they were written.
pub proof fn lemma_encapsulation_parts(share: u64, recipient: u64)
    ensures
        encapsulation_spec(share, recipient).len() == ENCAPSULATION_LEN,
        encapsulated_share(encapsulation_spec(share, recipient)) == share,
        encapsulated_recipient(encapsulation_spec(share, recipient)) == recipient,
{
    lemma_auto_spec_u64_to_from_le_bytes();
    let e = encapsulation_spec(share, recipient);
    assert(e.subrange(0, 8) =~= spec_u64_to_le_bytes(share));
    assert(e.subrange(8, ENCAPSULATION_LEN as int) =~= spec_u64_to_le_bytes(recipient));
}

/// The secret that the sender of a message derives from the recipient's
/// public key and the entropy.
pub open spec fn sender_secret(public_key: Seq<u8>, entropy: Seq<u8>) -> u64 {
    pow_mod_spec(key_word(public_key) as nat, ephemeral_scalar(entropy) as nat) as u64
}

/// Both sides of the exchange arrive at the same secret: under the
/// encapsulated key of a message sealed for a secret key's public key, that
/// secret key opens any payload as the sender's secret does.
pub proof fn lemma_shared_secret_agrees(
    plaintext: Seq<u8>,
    secret_key: Seq<u8>,
    entropy: Seq<u8>,
    payload: Seq<u8>,
)
    requires
        is_secret_key(KeyRole::Encryption, secret_key),
    ensures
        ({
            let public_key = public_of(KeyRole::Encryption, secret_key);
            let sealed = seal(plaintext, public_key, entropy);
            let share = share_spec(ephemeral_scalar(entropy));
            let shared = sender_secret(public_key, entropy);
            &&& sealed.ciphertext == seal_payload_spec(
                shared,
                share,
                entropy_nonce(entropy),
                plaintext,
            )
            &&& open(
                (EncryptedMessageView {
                    ciphertext: payload,
                    encapsulated_key: sealed.encapsulated_key,
                }),
                secret_key,
            ) == open_payload_spec(shared, share, payload)
        }),
{
    reveal(seal_for_spec);
    reveal(open);
    let role = KeyRole::Encryption;
    let base = role.base_spec() as nat;
    let public_key = public_of(role, secret_key);
    let x = key_word(secret_key);
    let r = ephemeral_scalar(entropy);
    let y = key_word(public_key);
    let share = share_spec(r);
    lemma_public_of(role, secret_key);
    lemma_pow_mod_bound(base, r as nat);
    lemma_pow_mod_bound(base, x as nat);
    lemma_encapsulation_parts(share, y);
    assert(y == share_spec(x));
    // both sides arrive at the base raised to the product of the scalars
    lemma_pow_mod_tower(base, x as nat, r as nat);
    lemma_pow_mod_tower(base, r as nat, x as nat);
    assert((x as nat) * (r as nat) == (r as nat) * (x as nat)) by (nonlinear_arith);
    assert(pow_mod_spec(share as nat, x as nat) as u64 == sender_secret(public_key, entropy));
}

/// The secret key paired with the public key opens what was sealed for it.
pub proof fn lemma_open_seal(plaintext: Seq<u8>, secret_key: Seq<u8>, entropy: Seq<u8>)
    requires
        is_secret_key(KeyRole::Encryption, secret_key),
    ensures
        open(
            seal(plaintext, public_of(KeyRole::Encryption, secret_key), entropy),
            secret_key,
        ) == Some(plaintext),
{
    let public_key = public_of(KeyRole::Encryption, secret_key);
    let sealed = seal(plaintext, public_key, entropy);
    lemma_shared_secret_agrees(plaintext, secret_key, entropy, sealed.ciphertext);
    lemma_open_sealed_payload(
        sender_secret(public_key, entropy),
        share_spec(ephemeral_scalar(entropy)),
        entropy_nonce(entropy),
        plaintext,
    );
}

/// Checks what encryption asks of its inputs, and reads the recipient's
/// element.
fn check_encrypt_inputs(plaintext: &[u8], public_key: &[u8]) -> (r: Result<u64, CryptoError>)
    ensures
        !is_public_key(KeyRole::Encryption, public_key@) ==> r == Err::<u64, CryptoError>(
            CryptoError::InvalidPublicKey,
        ),
        is_public_key(KeyRole::Encryption, public_key@) && plaintext@.len() > MAX_PLAINTEXT_LEN
            ==> r == Err::<u64, CryptoError>(CryptoError::PlaintextTooLarge),
        is_public_key(KeyRole::Encryption, public_key@) && plaintext@.len() <= MAX_PLAINTEXT_LEN
            ==> r == Ok::<u64, CryptoError>(key_word(public_key@)),
{
    match decode_public_key(KeyRole::Encryption, public_key) {
        None => Err(CryptoError::InvalidPublicKey),
        Some(recipient) => {
            if plaintext.len() > MAX_PLAINTEXT_LEN {
                Err(CryptoError::PlaintextTooLarge)
            } else {
                Ok(recipient)
            }
        },
    }
}

/// Seals `plaintext` for the recipient whose group element is `recipient`.
fn seal_for(plaintext: &[u8], recipient: u64, entropy: &[u8]) -> (m: EncryptedMessage)
    requires
        recipient < MODULUS,
        entropy@.len() == ENTROPY_LEN,
    ensures
        m@ == seal_for_spec(plaintext@, recipient, entropy@),
{
    let scalar = scalar_from_seed(slice_subrange(entropy, 0, SEED_LEN));
    let nonce = u64_from_le_bytes(slice_subrange(entropy, SEED_LEN, ENTROPY_LEN));
    let share = pow_mod(KeyRole::Encryption.base(), scalar as u128);
    let shared = pow_mod(recipient, scalar as u128);
    assert(scalar == ephemeral_scalar(entropy@));
    assert(nonce == entropy_nonce(entropy@));
    assert(share == share_spec(scalar));
    assert(shared == pow_mod_spec(recipient as nat, scalar as nat) as u64);
    let ciphertext = seal_payload(shared, share, nonce, plaintext);
    let mut encapsulated_key = u64_to_le_bytes(share);
    let addressee = u64_to_le_bytes(recipient);
    encapsulated_key.extend_from_slice(addressee.as_slice());
    assert(encapsulated_key@ == encapsulation_spec(share, recipient));
    proof {
        reveal(seal_for_spec);
    }
    EncryptedMessage { ciphertext, encapsulated_key }
}

/// Encrypts `plaintext` for `public_key` with the randomness handed in.
///
/// The same three inputs always give the same message. The entropy must
/// have [`ENTROPY_LEN`] bytes and must not be used twice.
pub fn encrypt_with(plaintext: &[u8], public_key: &[u8], entropy: &[u8]) -> (r: Result<
    EncryptedMessage,
    CryptoError,
>)
    ensures
        match encrypt_spec(plaintext@, public_key@, entropy@) {
            Ok(message) => r matches Ok(m) && m@ == message,
            Err(e) => r matches Err(f) && f == e,
        },
{
    match check_encrypt_inputs(plaintext, public_key) {
        Err(e) => Err(e),
        Ok(recipient) => {
            if entropy.len() != ENTROPY_LEN {
                Err(CryptoError::GenerationFailure)
            } else {
                Ok(seal_for(plaintext, recipient, entropy))
            }
        },
    }
}

/// Encrypts `plaintext` for `public_key` with fresh randomness from the
/// operating system.
///
/// A malformed key and an oversized plaintext are refused before any
/// randomness is drawn. After that the only failure is that of the random
/// source, and whatever it hands back, the message returned is one that the
/// recipient's secret key opens.
pub fn encrypt(plaintext: &[u8], public_key: &[u8]) -> (r: Result<EncryptedMessage, CryptoError>)
    ensures
        !is_public_key(KeyRole::Encryption, public_key@) ==> (r matches Err(e) && e
            == CryptoError::InvalidPublicKey),
        is_public_key(KeyRole::Encryption, public_key@) && plaintext@.len() > MAX_PLAINTEXT_LEN
            ==> (r matches Err(e) && e == CryptoError::PlaintextTooLarge),
        is_public_key(KeyRole::Encryption, public_key@) && plaintext@.len() <= MAX_PLAINTEXT_LEN
            ==> match r {
            Ok(message) => is_encryption_of(message@, plaintext@, public_key@),
            Err(e) => e == CryptoError::GenerationFailure,
        },
{
    match check_encrypt_inputs(plaintext, public_key) {
        Ok(_) => {},
        Err(e) => { return Err(e); },
    }
    match os_entropy(ENTROPY_LEN) {
        Ok(entropy) => encrypt_with(plaintext, public_key, entropy.as_slice()),
        Err(_) => Err(CryptoError::GenerationFailure),
    }
}

/// Decrypts `encrypted` with `secret_key`.
///
/// Every refusal is the same error, whatever its cause.
pub fn decrypt(encrypted: &EncryptedMessage, secret_key: &[u8]) -> (r: Result<Vec<u8>, CryptoError>)
    ensures
        match open(encrypted@, secret_key@) {
            Some(plaintext) => r matches Ok(v) && v@ == plaintext,
            None => r matches Err(e) && e == CryptoError::DecryptionFailure,
        },
{
    decrypt_message(
        encrypted.ciphertext.as_slice(),
        encrypted.encapsulated_key.as_slice(),
        secret_key,
    )
}

/// Decrypts a message handed over as its two byte strings.
pub fn decrypt_message(ciphertext: &[u8], encapsulated_key: &[u8], secret_key: &[u8]) -> (r: Result<
    Vec<u8>,
    CryptoError,
>)
    ensures
        match open(
            (EncryptedMessageView {
                ciphertext: ciphertext@,
                encapsulated_key: encapsulated_key@,
            }),
            secret_key@,
        ) {
            Some(plaintext) => r matches Ok(v) && v@ == plaintext,
            None => r matches Err(e) && e == CryptoError::DecryptionFailure,
        },
{
    proof {
        reveal(open);
    }
    let scalar = match decode_secret_key(KeyRole::Encryption, secret_key) {
        Some(scalar) => scalar,
        None => { return Err(CryptoError::DecryptionFailure); },
    };
    if encapsulated_key.len() != ENCAPSULATION_LEN {
        return Err(CryptoError::DecryptionFailure);
    }
    let share = u64_from_le_bytes(slice_subrange(encapsulated_key, 0, 8));
    let recipient = u64_from_le_bytes(slice_subrange(encapsulated_key, 8, ENCAPSULATION_LEN));
    if share >= MODULUS {
        return Err(CryptoError::DecryptionFailure);
    }
    if recipient != pow_mod(KeyRole::Encryption.base(), scalar as u128) {
        return Err(CryptoError::DecryptionFailure);
    }
    let shared = pow_mod(share, scalar as u128);
    match open_payload(shared, share, ciphertext) {
        Some(plaintext) => Ok(plaintext),
        None => Err(CryptoError::DecryptionFailure),
    }
}

} // verus!
