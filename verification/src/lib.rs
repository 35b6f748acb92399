//! A miniature hybrid public-key scheme with a machine-checked functional
//! contract.
//!
//! Three engines share one arithmetic core, the multiplicative group of the
//! integers modulo the prime `27 * 2^56 + 1`:
//!
//! * key generation, by role ([`KeyPair`], [`KeyRole`]),
//! * hybrid encryption: a Diffie-Hellman encapsulation, two derived symmetric
//!   keys, a counter-mode stream and an authentication tag ([`encrypt`],
//!   [`decrypt`]),
//! * Schnorr signatures ([`sign`], [`verify`]).
//!
//! What is proved is functional: every result is pinned to a mathematical
//! model, decryption inverts encryption, honest signatures verify, a key
//! pair other than the intended one is refused, and a changed byte in a
//! ciphertext is detected. Nothing here is a statement about computational
//! hardness: the group has 61 bits and an order with no large prime factor,
//! and the mixing function is not a cryptographic hash, so the parameters
//! protect nothing against a determined adversary.
pub mod cipher;
pub mod encoding;
pub mod entropy;
pub mod error;
pub mod field;
pub mod generators;
pub mod group;
pub mod hash;
pub mod hybrid;
pub mod keys;
pub mod laws;
pub mod signature;

pub use error::CryptoError;
pub use hybrid::{decrypt, decrypt_message, encrypt, encrypt_with, EncryptedMessage};
pub use keys::{KeyPair, KeyRole};
pub use signature::{sign, verify, Signature};
