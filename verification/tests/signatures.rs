use crypto_core::keys::encode_key;
use crypto_core::signature::SIGNATURE_LEN;
use crypto_core::{sign, verify, CryptoError, KeyPair, KeyRole};

const SIGNER_SEED: [u8; 8] = [1, 2, 3, 4, 5, 6, 7, 8];
const STRANGER_SEED: [u8; 8] = [2, 3, 4, 5, 6, 7, 8, 9];

fn fixed_signer() -> KeyPair {
    KeyPair::from_seed(KeyRole::Signature, &SIGNER_SEED).unwrap()
}

#[test]
fn test_sign_verify() {
    let keys = KeyPair::new_sig().unwrap();
    let message = b"Sign this message";

    let signature = sign(message, &keys.secret_key).unwrap();
    let verified = verify(message, &signature.data, &keys.public_key).unwrap();

    assert!(verified);
}

#[test]
fn verify_under_a_fresh_key_pair_is_false() {
    let keys = KeyPair::new_sig().unwrap();
    let message = b"Sign this message";
    let signature = sign(message, &keys.secret_key).unwrap();
    assert_eq!(verify(message, &signature.data, &keys.public_key), Ok(true));
    let stranger = KeyPair::new_sig().unwrap();
    assert_eq!(verify(message, &signature.data, &stranger.public_key), Ok(false));
}

#[test]
fn sign_known_signature() {
    let pair = fixed_signer();
    let s = sign(b"Sign this message", &pair.secret_key).unwrap();
    assert_eq!(
        s.data,
        vec![
            177, 168, 200, 177, 33, 95, 115, 2, 49, 19, 246, 23, 198, 35, 161, 1, 47, 36, 251,
            155, 97, 79, 80, 24
        ]
    );
    assert_eq!(verify(b"Sign this message", &s.data, &pair.public_key), Ok(true));
}

#[test]
fn sign_known_signature_of_the_empty_message() {
    let pair = fixed_signer();
    let s = sign(b"", &pair.secret_key).unwrap();
    assert_eq!(
        s.data,
        vec![
            177, 168, 200, 177, 33, 95, 115, 2, 38, 151, 45, 11, 57, 124, 141, 10, 178, 124, 6,
            214, 119, 134, 5, 15
        ]
    );
    assert_eq!(verify(b"", &s.data, &pair.public_key), Ok(true));
}

#[test]
fn signature_has_the_fixed_length_and_names_the_signer() {
    assert_eq!(SIGNATURE_LEN, 24);
    let pair = fixed_signer();
    for len in [0usize, 1, 23, 24, 25, 500] {
        let message = vec![0x42u8; len];
        let s = sign(&message, &pair.secret_key).unwrap();
        assert_eq!(s.data.len(), SIGNATURE_LEN);
        assert_eq!(s.data[..8], pair.public_key[1..]);
    }
}

#[test]
fn sign_is_deterministic() {
    let pair = fixed_signer();
    let a = sign(b"twice", &pair.secret_key).unwrap();
    let b = sign(b"twice", &pair.secret_key).unwrap();
    assert_eq!(a.data, b.data);
}

#[test]
fn honest_signatures_verify_for_many_keys_and_messages() {
    for k in 0..40u8 {
        let seed = [k, 2, k ^ 0xC3, 4, k.wrapping_mul(29), 6, 7, k];
        let pair = KeyPair::from_seed(KeyRole::Signature, &seed).unwrap();
        let message: Vec<u8> = (0..(k as usize * 5)).map(|i| (i as u8) ^ k).collect();
        let s = sign(&message, &pair.secret_key).unwrap();
        assert_eq!(verify(&message, &s.data, &pair.public_key), Ok(true));
    }
}

#[test]
fn honest_signatures_verify_with_generated_keys() {
    for i in 0..25usize {
        let pair = KeyPair::new_sig().unwrap();
        let message = vec![i as u8; i];
        let s = sign(&message, &pair.secret_key).unwrap();
        assert_eq!(verify(&message, &s.data, &pair.public_key), Ok(true));
    }
}

#[test]
fn verify_rejects_another_key_pair() {
    let pair = fixed_signer();
    let other = KeyPair::from_seed(KeyRole::Signature, &STRANGER_SEED).unwrap();
    let s = sign(b"Sign this message", &pair.secret_key).unwrap();
    assert_eq!(verify(b"Sign this message", &s.data, &other.public_key), Ok(false));
}

#[test]
fn verify_rejects_another_message() {
    let pair = fixed_signer();
    let s = sign(b"Sign this message", &pair.secret_key).unwrap();
    assert_eq!(verify(b"Sign that message", &s.data, &pair.public_key), Ok(false));
    assert_eq!(verify(b"Sign this message!", &s.data, &pair.public_key), Ok(false));
    assert_eq!(verify(b"Sign this messag", &s.data, &pair.public_key), Ok(false));
    assert_eq!(verify(b"", &s.data, &pair.public_key), Ok(false));
}

#[test]
fn verify_rejects_every_single_bit_flip_of_the_signature() {
    let pair = fixed_signer();
    let s = sign(b"Sign this message", &pair.secret_key).unwrap();
    for bit in 0..s.data.len() * 8 {
        let mut forged = s.data.clone();
        forged[bit / 8] ^= 1 << (bit % 8);
        assert_eq!(verify(b"Sign this message", &forged, &pair.public_key), Ok(false));
    }
}

#[test]
fn verify_rejects_every_single_bit_flip_of_the_message() {
    let pair = fixed_signer();
    let message = b"Sign this message".to_vec();
    let s = sign(&message, &pair.secret_key).unwrap();
    for bit in 0..message.len() * 8 {
        let mut other = message.clone();
        other[bit / 8] ^= 1 << (bit % 8);
        assert_eq!(verify(&other, &s.data, &pair.public_key), Ok(false));
    }
}

#[test]
fn verify_rejects_an_unreduced_commitment() {
    let pair = fixed_signer();
    let mut s = sign(b"Sign this message", &pair.secret_key).unwrap();
    for b in s.data[8..16].iter_mut() {
        *b = 0xFF;
    }
    assert_eq!(verify(b"Sign this message", &s.data, &pair.public_key), Ok(false));
}

#[test]
fn verify_rejects_an_unreduced_response() {
    let pair = fixed_signer();
    let mut s = sign(b"Sign this message", &pair.secret_key).unwrap();
    for b in s.data[16..].iter_mut() {
        *b = 0xFF;
    }
    assert_eq!(verify(b"Sign this message", &s.data, &pair.public_key), Ok(false));
}

#[test]
fn verify_rejects_a_response_shifted_by_the_order() {
    // The shifted response leads to the same power of the base; it is
    // rejected because a response has to be reduced.
    let pair = fixed_signer();
    let s = sign(b"Sign this message", &pair.secret_key).unwrap();
    let mut word = [0u8; 8];
    word.copy_from_slice(&s.data[16..]);
    let response = u64::from_le_bytes(word);
    let order = 27 * (1u64 << 56);
    assert!(response < order);
    let mut shifted = s.data.clone();
    shifted[16..].copy_from_slice(&(response + order).to_le_bytes());
    assert_eq!(verify(b"Sign this message", &shifted, &pair.public_key), Ok(false));
}

#[test]
fn verify_reports_a_blob_of_the_wrong_length() {
    let pair = fixed_signer();
    let s = sign(b"Sign this message", &pair.secret_key).unwrap();
    assert_eq!(
        verify(b"Sign this message", &s.data[..23], &pair.public_key),
        Err(CryptoError::MalformedSignature)
    );
    assert_eq!(
        verify(b"Sign this message", &[], &pair.public_key),
        Err(CryptoError::MalformedSignature)
    );
    let mut long = s.data.clone();
    long.push(0);
    assert_eq!(
        verify(b"Sign this message", &long, &pair.public_key),
        Err(CryptoError::MalformedSignature)
    );
}

#[test]
fn verify_reports_a_malformed_public_key() {
    let pair = fixed_signer();
    let s = sign(b"Sign this message", &pair.secret_key).unwrap();
    assert_eq!(
        verify(b"Sign this message", &s.data, &pair.public_key[..8]),
        Err(CryptoError::InvalidPublicKey)
    );
    assert_eq!(
        verify(b"Sign this message", &s.data, &[]),
        Err(CryptoError::InvalidPublicKey)
    );
    let zero = encode_key(KeyRole::Signature, 0);
    assert_eq!(
        verify(b"Sign this message", &s.data, &zero),
        Err(CryptoError::InvalidPublicKey)
    );
    let unreduced = encode_key(KeyRole::Signature, u64::MAX);
    assert_eq!(
        verify(b"Sign this message", &s.data, &unreduced),
        Err(CryptoError::InvalidPublicKey)
    );
}

#[test]
fn verify_reports_the_key_before_the_blob() {
    assert_eq!(verify(b"m", &[], &[]), Err(CryptoError::InvalidPublicKey));
}

#[test]
fn verify_refuses_an_encryption_key() {
    let pair = fixed_signer();
    let kem = KeyPair::from_seed(KeyRole::Encryption, &SIGNER_SEED).unwrap();
    let s = sign(b"Sign this message", &pair.secret_key).unwrap();
    assert_eq!(
        verify(b"Sign this message", &s.data, &kem.public_key),
        Err(CryptoError::InvalidPublicKey)
    );
}

#[test]
fn sign_refuses_an_encryption_key() {
    let kem = KeyPair::from_seed(KeyRole::Encryption, &SIGNER_SEED).unwrap();
    assert_eq!(
        sign(b"Sign this message", &kem.secret_key).err(),
        Some(CryptoError::InvalidSecretKey)
    );
}

#[test]
fn sign_reports_a_malformed_secret_key() {
    let pair = fixed_signer();
    assert_eq!(sign(b"m", &[]).err(), Some(CryptoError::InvalidSecretKey));
    assert_eq!(
        sign(b"m", &pair.secret_key[..8]).err(),
        Some(CryptoError::InvalidSecretKey)
    );
    for word in [0u64, 1, 27 * (1u64 << 56), u64::MAX] {
        let key = encode_key(KeyRole::Signature, word);
        assert_eq!(sign(b"m", &key).err(), Some(CryptoError::InvalidSecretKey));
    }
}

#[test]
fn verify_accepts_another_message_with_the_same_challenge() {
    // The challenge has 32 bits, so for every signature some other message
    // draws the same one; this is such a message for the known signature.
    let pair = fixed_signer();
    let s = sign(b"Sign this message", &pair.secret_key).unwrap();
    let twin = [74u8, 235, 64, 219, 1, 0, 0, 0];
    assert_eq!(verify(&twin, &s.data, &pair.public_key), Ok(true));
    let mut near = twin;
    near[0] ^= 1;
    assert_eq!(verify(&near, &s.data, &pair.public_key), Ok(false));
}
