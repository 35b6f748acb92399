//! Signatures: a commitment, a challenge drawn from the message, and a
//! response that only the holder of the secret scalar can form.
//!
//! A signature is twenty-four bytes: the signer's group element, the
//! commitment, and the response, eight bytes each. The response is
//! `nonce + challenge * scalar`, reduced by the order of the group. A
//! signature is accepted when it names the signer, its commitment is a
//! residue, its response is reduced, and the base raised to the response
//! equals the commitment times the signer's element raised to the challenge.
use crate::error::CryptoError;
use crate::field::{
    lemma_pow_mod_bound, lemma_pow_mod_sum, lemma_pow_mod_tower, mul_mod, mul_mod_spec, pow_mod,
    pow_mod_spec, MODULUS,
};
use crate::group::{lemma_power_periodic, ORDER};
use crate::hash::{keyed_digest, keyed_digest_spec, mix64, mix64_spec};
use crate::keys::{
    decode_public_key, decode_secret_key, is_public_key, is_secret_key, key_word,
    lemma_base_generates, lemma_public_of, public_of, KeyRole,
};
use vstd::bytes::{
    lemma_auto_spec_u64_to_from_le_bytes, spec_u64_from_le_bytes, spec_u64_to_le_bytes,
    u64_from_le_bytes, u64_to_le_bytes,
};
use vstd::prelude::*;
use vstd::slice::slice_subrange;

verus! {

/// The length of a signature, in bytes.
pub const SIGNATURE_LEN: usize = 24;

/// Separates the nonce from the other uses of the scalar.
pub const NONCE_LABEL: u64 = 0x4E4F_4E43_455F_4B45;

/// Separates the challenge from the other uses of the digest.
pub const CHALLENGE_LABEL: u64 = 0x4348_414C_4C45_4E47;

/// A signature.
#[derive(Clone, Debug)]
pub struct Signature {
    /// The signer's element, the commitment and the response.
    pub data: Vec<u8>,
}

impl View for Signature {
    type V = Seq<u8>;

    open spec fn view(&self) -> Seq<u8> {
        self.data@
    }
}

/// The nonce of a signature: an exponent below the order, drawn from the
/// secret scalar and the whole message.
pub open spec fn nonce_spec(scalar: u64, message: Seq<u8>) -> u64 {
    keyed_digest_spec(scalar ^ NONCE_LABEL, message) % ORDER
}

/// The challenge: 32 bits drawn from the commitment, the signer's element
/// and the whole message.
pub open spec fn challenge_spec(commitment: u64, element: u64, message: Seq<u8>) -> u64 {
    keyed_digest_spec(mix64_spec(commitment ^ CHALLENGE_LABEL) ^ element, message) & 0xFFFF_FFFF
}

/// The response to a challenge: `nonce + challenge * scalar`, reduced by
/// the order.
pub open spec fn response_spec(nonce: u64, challenge: u64, scalar: u64) -> u64 {
    ((nonce + challenge * scalar) % (ORDER as int)) as u64
}

/// The signature of `message` under the secret key `secret_key`.
#[verifier::opaque]
pub open spec fn signature_spec(message: Seq<u8>, secret_key: Seq<u8>) -> Seq<u8> {
    let base = KeyRole::Signature.base_spec() as nat;
    let scalar = key_word(secret_key);
    let element = pow_mod_spec(base, scalar as nat) as u64;
    let nonce = nonce_spec(scalar, message);
    let commitment = pow_mod_spec(base, nonce as nat) as u64;
    let challenge = challenge_spec(commitment, element, message);
    spec_u64_to_le_bytes(element) + spec_u64_to_le_bytes(commitment) + spec_u64_to_le_bytes(
        response_spec(nonce, challenge, scalar),
    )
}

/// What signing returns on each input.
pub open spec fn sign_spec(message: Seq<u8>, secret_key: Seq<u8>) -> Result<Seq<u8>, CryptoError> {
    if !is_secret_key(KeyRole::Signature, secret_key) {
        Err(CryptoError::InvalidSecretKey)
    } else {
        Ok(signature_spec(message, secret_key))
    }
}

/// The signer's element that a signature names.
pub open spec fn signature_signer(signature: Seq<u8>) -> u64 {
    spec_u64_from_le_bytes(signature.subrange(0, 8))
}

/// The commitment that a signature carries.
pub open spec fn signature_commitment(signature: Seq<u8>) -> u64 {
    spec_u64_from_le_bytes(signature.subrange(8, 16))
}

/// The response that a signature carries.
pub open spec fn signature_response(signature: Seq<u8>) -> u64 {
    spec_u64_from_le_bytes(signature.subrange(16, SIGNATURE_LEN as int))
}

/// The value that the base raised to the response must equal for
/// `message`: the commitment times the element raised to the challenge.
pub open spec fn verification_target(commitment: u64, element: u64, message: Seq<u8>) -> nat {
    mul_mod_spec(
        commitment as nat,
        pow_mod_spec(element as nat, challenge_spec(commitment, element, message) as nat),
    )
}

/// Whether `signature`, of the right length, is accepted for `message`
/// under the public key `public_key`.
#[verifier::opaque]
pub open spec fn accepts(message: Seq<u8>, signature: Seq<u8>, public_key: Seq<u8>) -> bool {
    let element = key_word(public_key);
    let commitment = signature_commitment(signature);
    let response = signature_response(signature);
    &&& signature_signer(signature) == element
    &&& commitment < MODULUS
    &&& response < ORDER
    &&& pow_mod_spec(KeyRole::Signature.base_spec() as nat, response as nat)
        == verification_target(commitment, element, message)
}

/// What verification returns on each input: an error for a malformed key
/// or a blob of the wrong length, and otherwise whether the signature is
/// accepted.
pub open spec fn verify_spec(message: Seq<u8>, signature: Seq<u8>, public_key: Seq<u8>) -> Result<
    bool,
    CryptoError,
> {
    if !is_public_key(KeyRole::Signature, public_key) {
        Err(CryptoError::InvalidPublicKey)
    } else if signature.len() != SIGNATURE_LEN {
        Err(CryptoError::MalformedSignature)
    } else {
        Ok(accepts(message, signature, public_key))
    }
}

/// The challenge has 32 bits.
pub proof fn lemma_challenge_bound(commitment: u64, element: u64, message: Seq<u8>)
    ensures
        challenge_spec(commitment, element, message) < 0x1_0000_0000,
{
    let d = keyed_digest_spec(mix64_spec(commitment ^ CHALLENGE_LABEL) ^ element, message);
    assert(d & 0xFFFF_FFFF < 0x1_0000_0000) by (bit_vector);
}

/// The sum that the response reduces fits in 128 bits, and the response is
/// below the order.
pub proof fn lemma_response_bound(nonce: u64, challenge: u64, scalar: u64)
    requires
        challenge < 0x1_0000_0000,
        scalar < MODULUS,
    ensures
        challenge * scalar < 0x2000_0000_0000_0000_0000_0000,
        nonce + challenge * scalar <= u128::MAX,
        response_spec(nonce, challenge, scalar) < ORDER,
        response_spec(nonce, challenge, scalar) == (nonce + challenge * scalar) % (ORDER as int),
{
    assert(0 <= challenge * scalar < 0x1_0000_0000 * 0x2000_0000_0000_0000) by (nonlinear_arith)
        requires
            0 <= challenge < 0x1_0000_0000,
            0 <= scalar < 0x2000_0000_0000_0000,
    ;
}

/// The three parts of a signature are read back as they were written.
pub proof fn lemma_signature_parts(element: u64, commitment: u64, response: u64)
    ensures
        ({
            let signature = spec_u64_to_le_bytes(element) + spec_u64_to_le_bytes(commitment)
                + spec_u64_to_le_bytes(response);
            &&& signature.len() == SIGNATURE_LEN
            &&& signature_signer(signature) == element
            &&& signature_commitment(signature) == commitment
            &&& signature_response(signature) == response
        }),
{
    lemma_auto_spec_u64_to_from_le_bytes();
    let signature = spec_u64_to_le_bytes(element) + spec_u64_to_le_bytes(commitment)
        + spec_u64_to_le_bytes(response);
    assert(signature.subrange(0, 8) =~= spec_u64_to_le_bytes(element));
    assert(signature.subrange(8, 16) =~= spec_u64_to_le_bytes(commitment));
    assert(signature.subrange(16, SIGNATURE_LEN as int) =~= spec_u64_to_le_bytes(response));
}

/// What an honest signature holds: it has the length of a signature, names
/// the signer, carries the base raised to the nonce and a reduced response,
/// and the base raised to that response is the base raised to
/// `nonce + challenge * scalar`, which is the verification target of the
/// signed message.
pub proof fn lemma_response_meets_target(message: Seq<u8>, secret_key: Seq<u8>)
    requires
        is_secret_key(KeyRole::Signature, secret_key),
    ensures
        ({
            let base = KeyRole::Signature.base_spec() as nat;
            let signature = signature_spec(message, secret_key);
            let element = key_word(public_of(KeyRole::Signature, secret_key));
            let scalar = key_word(secret_key);
            let nonce = nonce_spec(scalar, message);
            let commitment = signature_commitment(signature);
            let challenge = challenge_spec(commitment, element, message);
            &&& signature.len() == SIGNATURE_LEN
            &&& signature_signer(signature) == element
            &&& commitment == pow_mod_spec(base, nonce as nat)
            &&& commitment < MODULUS
            &&& signature_response(signature) == response_spec(nonce, challenge, scalar)
            &&& signature_response(signature) < ORDER
            &&& pow_mod_spec(base, signature_response(signature) as nat) == pow_mod_spec(
                base,
                (nonce + challenge * scalar) as nat,
            )
            &&& pow_mod_spec(base, signature_response(signature) as nat) == verification_target(
                commitment,
                element,
                message,
            )
        }),
{
    reveal(signature_spec);
    let role = KeyRole::Signature;
    let base = role.base_spec() as nat;
    let scalar = key_word(secret_key);
    let element = pow_mod_spec(base, scalar as nat) as u64;
    let nonce = nonce_spec(scalar, message);
    let commitment = pow_mod_spec(base, nonce as nat) as u64;
    let challenge = challenge_spec(commitment, element, message);
    let response = response_spec(nonce, challenge, scalar);
    let sum = (nonce + challenge * scalar) as nat;
    lemma_public_of(role, secret_key);
    lemma_pow_mod_bound(base, scalar as nat);
    lemma_pow_mod_bound(base, nonce as nat);
    lemma_challenge_bound(commitment, element, message);
    lemma_response_bound(nonce, challenge, scalar);
    lemma_signature_parts(element, commitment, response);
    // the reduction by the order does not change the power
    lemma_base_generates(role);
    lemma_power_periodic(base, sum);
    // base^(nonce + challenge * scalar) == base^nonce * (base^scalar)^challenge
    let product = (challenge * scalar) as nat;
    lemma_pow_mod_sum(base, nonce as nat, product);
    lemma_pow_mod_tower(base, scalar as nat, challenge as nat);
    assert((scalar as nat) * (challenge as nat) == product) by (nonlinear_arith)
        requires
            product == challenge * scalar,
    ;
    assert(sum == nonce as nat + product);
}

/// Draws the nonce of a signature from the secret scalar and the message.
fn signing_nonce(scalar: u64, message: &[u8]) -> (nonce: u64)
    ensures
        nonce == nonce_spec(scalar, message@),
        nonce < ORDER,
{
    keyed_digest(scalar ^ NONCE_LABEL, message) % ORDER
}

/// Draws the challenge from the commitment, the signer's element and the
/// message.
fn challenge(commitment: u64, element: u64, message: &[u8]) -> (c: u64)
    ensures
        c == challenge_spec(commitment, element, message@),
        c < 0x1_0000_0000,
{
    proof {
        lemma_challenge_bound(commitment, element, message@);
    }
    keyed_digest(mix64(commitment ^ CHALLENGE_LABEL) ^ element, message) & 0xFFFF_FFFF
}

/// Forms the response to a challenge.
fn response(nonce: u64, challenge: u64, scalar: u64) -> (r: u64)
    requires
        challenge < 0x1_0000_0000,
        scalar < MODULUS,
    ensures
        r == response_spec(nonce, challenge, scalar),
        r < ORDER,
{
    proof {
        lemma_response_bound(nonce, challenge, scalar);
    }
    let sum: u128 = (nonce as u128) + (challenge as u128) * (scalar as u128);
    (sum % (ORDER as u128)) as u64
}

/// Signs `message` with `secret_key`.
///
/// Signing is deterministic: the nonce is drawn from the key and the whole
/// message.
pub fn sign(message: &[u8], secret_key: &[u8]) -> (r: Result<Signature, CryptoError>)
    ensures
        match sign_spec(message@, secret_key@) {
            Ok(signature) => r matches Ok(s) && s@ == signature,
            Err(e) => r matches Err(f) && f == e,
        },
{
    let scalar = match decode_secret_key(KeyRole::Signature, secret_key) {
        Some(scalar) => scalar,
        None => { return Err(CryptoError::InvalidSecretKey); },
    };
    proof {
        reveal(signature_spec);
    }
    let base = KeyRole::Signature.base();
    let element = pow_mod(base, scalar as u128);
    let nonce = signing_nonce(scalar, message);
    let commitment = pow_mod(base, nonce as u128);
    let c = challenge(commitment, element, message);
    let answer = response(nonce, c, scalar);
    let mut data = u64_to_le_bytes(element);
    let middle = u64_to_le_bytes(commitment);
    data.extend_from_slice(middle.as_slice());
    let tail = u64_to_le_bytes(answer);
    data.extend_from_slice(tail.as_slice());
    Ok(Signature { data })
}

/// Verifies `signature` for `message` under `public_key`.
///
/// A signature that is not accepted is reported as `Ok(false)`; an error is
/// returned only for a malformed key or a blob of the wrong length.
pub fn verify(message: &[u8], signature: &[u8], public_key: &[u8]) -> (r: Result<bool, CryptoError>)
    ensures
        r == verify_spec(message@, signature@, public_key@),
{
    let element = match decode_public_key(KeyRole::Signature, public_key) {
        Some(element) => element,
        None => { return Err(CryptoError::InvalidPublicKey); },
    };
    if signature.len() != SIGNATURE_LEN {
        return Err(CryptoError::MalformedSignature);
    }
    proof {
        reveal(accepts);
    }
    let signer = u64_from_le_bytes(slice_subrange(signature, 0, 8));
    let commitment = u64_from_le_bytes(slice_subrange(signature, 8, 16));
    let answer = u64_from_le_bytes(slice_subrange(signature, 16, SIGNATURE_LEN));
    if signer != element || commitment >= MODULUS || answer >= ORDER {
        return Ok(false);
    }
    let c = challenge(commitment, element, message);
    let left = pow_mod(KeyRole::Signature.base(), answer as u128);
    let right = mul_mod(commitment, pow_mod(element, c as u128));
    Ok(left == right)
}

} // verus!
