use crypto_core::hybrid::{ENCAPSULATION_LEN, ENTROPY_LEN, MAX_PLAINTEXT_LEN};
use crypto_core::keys::encode_key;
use crypto_core::{
    decrypt, decrypt_message, encrypt, encrypt_with, CryptoError, EncryptedMessage, KeyPair,
    KeyRole,
};

const SEED: [u8; 8] = [1, 2, 3, 4, 5, 6, 7, 8];
const OTHER_SEED: [u8; 8] = [2, 3, 4, 5, 6, 7, 8, 9];
const ENTROPY: [u8; 16] = [16, 17, 18, 19, 20, 21, 22, 23, 24, 25, 26, 27, 28, 29, 30, 31];

fn fixed_recipient() -> KeyPair {
    KeyPair::from_seed(KeyRole::Encryption, &SEED).unwrap()
}

#[test]
fn test_kem_encrypt_decrypt() {
    let alice_keys = KeyPair::new_kem().unwrap();

    let message = b"Hello, quantum world!";
    let encrypted = encrypt(message, &alice_keys.public_key).unwrap();
    let decrypted = decrypt(&encrypted, &alice_keys.secret_key).unwrap();

    assert_eq!(decrypted, message);
}

#[test]
fn encrypt_with_known_message() {
    let pair = fixed_recipient();
    let m = encrypt_with(b"Hello, quantum world!", &pair.public_key, &ENTROPY).unwrap();
    assert_eq!(
        m.ciphertext,
        vec![
            24, 25, 26, 27, 28, 29, 30, 31, 132, 54, 11, 235, 3, 213, 83, 142, 93, 91, 166, 230,
            249, 68, 13, 191, 0, 52, 244, 137, 2, 77, 48, 61, 192, 119, 73, 111, 228
        ]
    );
    assert_eq!(
        m.encapsulated_key,
        vec![95, 246, 153, 5, 240, 232, 166, 1, 8, 92, 157, 218, 102, 239, 157, 5]
    );
    assert_eq!(
        decrypt(&m, &pair.secret_key),
        Ok(b"Hello, quantum world!".to_vec())
    );
}

#[test]
fn encrypt_with_empty_plaintext() {
    let pair = fixed_recipient();
    let m = encrypt_with(b"", &pair.public_key, &ENTROPY).unwrap();
    assert_eq!(
        m.ciphertext,
        vec![24, 25, 26, 27, 28, 29, 30, 31, 71, 28, 126, 192, 140, 115, 27, 7]
    );
    assert_eq!(m.encapsulated_key.len(), ENCAPSULATION_LEN);
    assert_eq!(decrypt(&m, &pair.secret_key), Ok(Vec::new()));
}

#[test]
fn ciphertext_carries_nonce_and_tag_around_the_body() {
    let pair = fixed_recipient();
    let text = b"sixteen byte msg";
    let m = encrypt_with(text, &pair.public_key, &ENTROPY).unwrap();
    assert_eq!(m.ciphertext.len(), text.len() + 16);
    assert_eq!(m.ciphertext[..8], ENTROPY[8..]);
    assert_ne!(m.ciphertext[8..24], text[..]);
}

#[test]
fn encapsulated_key_names_the_recipient() {
    let pair = fixed_recipient();
    let m = encrypt_with(b"x", &pair.public_key, &ENTROPY).unwrap();
    assert_eq!(m.encapsulated_key[8..], pair.public_key[1..]);
}

#[test]
fn encrypt_with_is_deterministic() {
    let pair = fixed_recipient();
    let a = encrypt_with(b"same", &pair.public_key, &ENTROPY).unwrap();
    let b = encrypt_with(b"same", &pair.public_key, &ENTROPY).unwrap();
    assert_eq!(a.ciphertext, b.ciphertext);
    assert_eq!(a.encapsulated_key, b.encapsulated_key);
}

#[test]
fn round_trip_for_many_lengths() {
    let pair = fixed_recipient();
    for len in [0usize, 1, 2, 7, 8, 9, 15, 16, 17, 255, 256, 1000] {
        let text: Vec<u8> = (0..len).map(|i| (i * 7 + 3) as u8).collect();
        let m = encrypt_with(&text, &pair.public_key, &ENTROPY).unwrap();
        assert_eq!(decrypt(&m, &pair.secret_key), Ok(text));
    }
}

#[test]
fn round_trip_for_many_keys_and_entropies() {
    for k in 0..40u8 {
        let seed = [k, 1, k ^ 0x5A, 3, k.wrapping_mul(31), 5, 6, k];
        let pair = KeyPair::from_seed(KeyRole::Encryption, &seed).unwrap();
        let mut entropy = [0u8; 16];
        for (i, e) in entropy.iter_mut().enumerate() {
            *e = k.wrapping_mul(17).wrapping_add(i as u8);
        }
        let text = vec![k; k as usize];
        let m = encrypt_with(&text, &pair.public_key, &entropy).unwrap();
        assert_eq!(decrypt(&m, &pair.secret_key), Ok(text));
    }
}

#[test]
fn round_trip_with_generated_keys_and_fresh_entropy() {
    for i in 0..25usize {
        let pair = KeyPair::new_kem().unwrap();
        let text = vec![0xA5u8; i * 3];
        let m = encrypt(&text, &pair.public_key).unwrap();
        assert_eq!(decrypt(&m, &pair.secret_key), Ok(text));
    }
}

#[test]
fn round_trip_at_the_plaintext_bound() {
    let pair = fixed_recipient();
    let text = vec![0x3Cu8; MAX_PLAINTEXT_LEN];
    let m = encrypt_with(&text, &pair.public_key, &ENTROPY).unwrap();
    assert_eq!(m.ciphertext.len(), MAX_PLAINTEXT_LEN + 16);
    assert_eq!(decrypt(&m, &pair.secret_key), Ok(text));
}

#[test]
fn encrypt_rejects_a_plaintext_over_the_bound() {
    let pair = fixed_recipient();
    let text = vec![0u8; MAX_PLAINTEXT_LEN + 1];
    assert_eq!(
        encrypt_with(&text, &pair.public_key, &ENTROPY).err(),
        Some(CryptoError::PlaintextTooLarge)
    );
    assert_eq!(
        encrypt(&text, &pair.public_key).err(),
        Some(CryptoError::PlaintextTooLarge)
    );
}

#[test]
fn encrypt_rejects_a_key_of_the_wrong_length() {
    let pair = fixed_recipient();
    for key in [&pair.public_key[..8], &[][..], &[1u8; 32][..]] {
        assert_eq!(
            encrypt_with(b"x", key, &ENTROPY).err(),
            Some(CryptoError::InvalidPublicKey)
        );
        assert_eq!(encrypt(b"x", key).err(), Some(CryptoError::InvalidPublicKey));
    }
}

#[test]
fn encrypt_rejects_a_signature_key() {
    let signing = KeyPair::from_seed(KeyRole::Signature, &SEED).unwrap();
    assert_eq!(
        encrypt_with(b"x", &signing.public_key, &ENTROPY).err(),
        Some(CryptoError::InvalidPublicKey)
    );
    assert_eq!(
        encrypt(b"x", &signing.public_key).err(),
        Some(CryptoError::InvalidPublicKey)
    );
}

#[test]
fn encrypt_rejects_a_degenerate_or_unreduced_element() {
    let modulus = 27 * (1u64 << 56) + 1;
    for word in [0u64, 1, modulus, modulus + 1, u64::MAX] {
        let key = encode_key(KeyRole::Encryption, word);
        assert_eq!(
            encrypt_with(b"x", &key, &ENTROPY).err(),
            Some(CryptoError::InvalidPublicKey)
        );
    }
    let smallest = encode_key(KeyRole::Encryption, 2);
    assert!(encrypt_with(b"x", &smallest, &ENTROPY).is_ok());
    let largest = encode_key(KeyRole::Encryption, modulus - 1);
    assert!(encrypt_with(b"x", &largest, &ENTROPY).is_ok());
}

#[test]
fn encrypt_with_rejects_entropy_of_the_wrong_length() {
    assert_eq!(ENTROPY_LEN, 16);
    let pair = fixed_recipient();
    for len in [0usize, 8, 15, 17, 32] {
        let entropy = vec![1u8; len];
        assert_eq!(
            encrypt_with(b"x", &pair.public_key, &entropy).err(),
            Some(CryptoError::GenerationFailure)
        );
    }
}

#[test]
fn encrypt_reports_the_key_before_the_plaintext_and_the_entropy() {
    let text = vec![0u8; MAX_PLAINTEXT_LEN + 1];
    assert_eq!(
        encrypt_with(&text, &[], &[]).err(),
        Some(CryptoError::InvalidPublicKey)
    );
    let pair = fixed_recipient();
    assert_eq!(
        encrypt_with(&text, &pair.public_key, &[]).err(),
        Some(CryptoError::PlaintextTooLarge)
    );
}

#[test]
fn decrypt_fails_on_every_single_bit_flip_of_the_ciphertext() {
    let pair = fixed_recipient();
    let m = encrypt_with(b"Hello, quantum world!", &pair.public_key, &ENTROPY).unwrap();
    for bit in 0..m.ciphertext.len() * 8 {
        let mut tampered = m.clone();
        tampered.ciphertext[bit / 8] ^= 1 << (bit % 8);
        assert_eq!(
            decrypt(&tampered, &pair.secret_key),
            Err(CryptoError::DecryptionFailure)
        );
    }
}

#[test]
fn decrypt_fails_on_every_single_bit_flip_of_the_encapsulated_key() {
    let pair = fixed_recipient();
    let m = encrypt_with(b"Hello, quantum world!", &pair.public_key, &ENTROPY).unwrap();
    for bit in 0..m.encapsulated_key.len() * 8 {
        let mut tampered = m.clone();
        tampered.encapsulated_key[bit / 8] ^= 1 << (bit % 8);
        assert_eq!(
            decrypt(&tampered, &pair.secret_key),
            Err(CryptoError::DecryptionFailure)
        );
    }
}

#[test]
fn decrypt_fails_on_a_truncated_or_extended_message() {
    let pair = fixed_recipient();
    let m = encrypt_with(b"Hello", &pair.public_key, &ENTROPY).unwrap();
    let mut short = m.clone();
    short.ciphertext.pop();
    assert_eq!(decrypt(&short, &pair.secret_key), Err(CryptoError::DecryptionFailure));
    let mut long = m.clone();
    long.ciphertext.push(0);
    assert_eq!(decrypt(&long, &pair.secret_key), Err(CryptoError::DecryptionFailure));
    let mut tiny = m.clone();
    tiny.ciphertext.truncate(15);
    assert_eq!(decrypt(&tiny, &pair.secret_key), Err(CryptoError::DecryptionFailure));
    let mut no_key = m.clone();
    no_key.encapsulated_key.pop();
    assert_eq!(decrypt(&no_key, &pair.secret_key), Err(CryptoError::DecryptionFailure));
    let empty = EncryptedMessage { ciphertext: Vec::new(), encapsulated_key: Vec::new() };
    assert_eq!(decrypt(&empty, &pair.secret_key), Err(CryptoError::DecryptionFailure));
}

#[test]
fn decrypt_fails_under_another_key_pair() {
    let pair = fixed_recipient();
    let other = KeyPair::from_seed(KeyRole::Encryption, &OTHER_SEED).unwrap();
    let m = encrypt_with(b"for the first pair only", &pair.public_key, &ENTROPY).unwrap();
    assert_eq!(decrypt(&m, &other.secret_key), Err(CryptoError::DecryptionFailure));
    assert!(decrypt(&m, &pair.secret_key).is_ok());
}

#[test]
fn decrypt_fails_under_another_generated_key_pair() {
    for _ in 0..25 {
        let first = KeyPair::new_kem().unwrap();
        let second = KeyPair::new_kem().unwrap();
        assert_ne!(first.secret_key, second.secret_key);
        let m = encrypt(b"secret", &first.public_key).unwrap();
        assert_eq!(decrypt(&m, &second.secret_key), Err(CryptoError::DecryptionFailure));
    }
}

#[test]
fn decrypt_fails_with_a_malformed_secret_key() {
    let pair = fixed_recipient();
    let m = encrypt_with(b"Hello", &pair.public_key, &ENTROPY).unwrap();
    assert_eq!(decrypt(&m, &[]), Err(CryptoError::DecryptionFailure));
    assert_eq!(
        decrypt(&m, &pair.secret_key[..8]),
        Err(CryptoError::DecryptionFailure)
    );
    assert_eq!(decrypt(&m, &pair.public_key), Err(CryptoError::DecryptionFailure));
    let zero = encode_key(KeyRole::Encryption, 0);
    assert_eq!(decrypt(&m, &zero), Err(CryptoError::DecryptionFailure));
}

#[test]
fn decrypt_fails_with_a_signature_secret_key() {
    let pair = fixed_recipient();
    let signing = KeyPair::from_seed(KeyRole::Signature, &SEED).unwrap();
    let m = encrypt_with(b"Hello", &pair.public_key, &ENTROPY).unwrap();
    assert_eq!(decrypt(&m, &signing.secret_key), Err(CryptoError::DecryptionFailure));
}

#[test]
fn decrypt_fails_on_an_unreduced_share() {
    let pair = fixed_recipient();
    let mut m = encrypt_with(b"Hello", &pair.public_key, &ENTROPY).unwrap();
    for b in m.encapsulated_key[..8].iter_mut() {
        *b = 0xFF;
    }
    assert_eq!(decrypt(&m, &pair.secret_key), Err(CryptoError::DecryptionFailure));
}

#[test]
fn encrypting_twice_gives_different_ciphertexts() {
    let pair = KeyPair::new_kem().unwrap();
    let a = encrypt(b"the same plaintext", &pair.public_key).unwrap();
    let b = encrypt(b"the same plaintext", &pair.public_key).unwrap();
    assert_ne!(a.ciphertext, b.ciphertext);
    assert_eq!(decrypt(&a, &pair.secret_key), Ok(b"the same plaintext".to_vec()));
    assert_eq!(decrypt(&b, &pair.secret_key), Ok(b"the same plaintext".to_vec()));
}

#[test]
fn different_nonces_give_different_ciphertexts() {
    let pair = fixed_recipient();
    let mut second = ENTROPY;
    second[15] ^= 1;
    let a = encrypt_with(b"the same plaintext", &pair.public_key, &ENTROPY).unwrap();
    let b = encrypt_with(b"the same plaintext", &pair.public_key, &second).unwrap();
    assert_ne!(a.ciphertext, b.ciphertext);
    assert_eq!(a.encapsulated_key, b.encapsulated_key);
}

#[test]
fn different_ephemeral_scalars_give_different_encapsulations() {
    let pair = fixed_recipient();
    let mut second = ENTROPY;
    second[0] ^= 1;
    let a = encrypt_with(b"the same plaintext", &pair.public_key, &ENTROPY).unwrap();
    let b = encrypt_with(b"the same plaintext", &pair.public_key, &second).unwrap();
    assert_ne!(a.encapsulated_key, b.encapsulated_key);
    assert_ne!(a.ciphertext, b.ciphertext);
}

#[test]
fn decrypt_message_takes_the_two_parts() {
    let pair = fixed_recipient();
    let m = encrypt_with(b"Hello, quantum world!", &pair.public_key, &ENTROPY).unwrap();
    assert_eq!(
        decrypt_message(&m.ciphertext, &m.encapsulated_key, &pair.secret_key),
        Ok(b"Hello, quantum world!".to_vec())
    );
    assert_eq!(
        decrypt_message(&m.encapsulated_key, &m.ciphertext, &pair.secret_key),
        Err(CryptoError::DecryptionFailure)
    );
}
