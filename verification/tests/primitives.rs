use crypto_core::cipher::{
    authentication_tag, open_payload, seal_payload, stream_key, tag_key, xor_keystream,
};
use crypto_core::field::{mul_mod, pow_mod, MODULUS};
use crypto_core::group::ORDER;
use crypto_core::hash::{absorb, keyed_digest, mix64};

#[test]
fn modulus_is_twenty_seven_times_a_power_of_two_plus_one() {
    assert_eq!(MODULUS, 27 * (1u64 << 56) + 1);
    assert_eq!(ORDER, MODULUS - 1);
}

#[test]
fn mul_mod_reduces_products() {
    assert_eq!(mul_mod(0, 12345), 0);
    assert_eq!(mul_mod(1, 12345), 12345);
    assert_eq!(mul_mod(MODULUS - 1, MODULUS - 1), 1);
    assert_eq!(mul_mod(1u64 << 60, 2), 360287970189639679);
    assert_eq!(mul_mod(123456789012345, 987654321098765), 1087235579280687978);
}

#[test]
fn mul_mod_accepts_unreduced_words() {
    assert_eq!(mul_mod(u64::MAX, u64::MAX), 341606371735362177);
    assert_eq!(mul_mod(MODULUS, 7), 0);
    assert_eq!(mul_mod(MODULUS + 3, 5), 15);
}

#[test]
fn pow_mod_small_exponents() {
    assert_eq!(pow_mod(5, 0), 1);
    assert_eq!(pow_mod(0, 0), 1);
    assert_eq!(pow_mod(0, 9), 0);
    assert_eq!(pow_mod(5, 1), 5);
    assert_eq!(pow_mod(5, 5), 3125);
    assert_eq!(pow_mod(17, 2), 289);
}

#[test]
fn pow_mod_large_exponents() {
    assert_eq!(pow_mod(5, 1u128 << 100), 50030831519089181);
    assert_eq!(pow_mod(17, u128::MAX), 653595949980798581);
    assert_eq!(pow_mod(12345678901234567890, 98765), 237401261456614811);
}

#[test]
fn pow_mod_reduces_the_base_first() {
    assert_eq!(pow_mod(MODULUS + 2, 10), 1024);
    assert_eq!(pow_mod(MODULUS, 3), 0);
}

#[test]
fn pow_mod_of_the_group_order_is_one() {
    assert_eq!(pow_mod(3, ORDER as u128), 1);
    assert_eq!(pow_mod(5, ORDER as u128), 1);
    assert_eq!(pow_mod(17, ORDER as u128), 1);
}

#[test]
fn the_bases_generate_the_group() {
    for base in [5u64, 17] {
        assert_eq!(pow_mod(base, (ORDER / 2) as u128), MODULUS - 1);
        assert_ne!(pow_mod(base, (ORDER / 3) as u128), 1);
    }
    assert_eq!(pow_mod(5, (ORDER / 3) as u128), 972777520719986688);
    assert_eq!(pow_mod(17, (ORDER / 3) as u128), 972777520719986688);
}

#[test]
fn a_square_does_not_generate_the_group() {
    assert_eq!(pow_mod(25, (ORDER / 2) as u128), 1);
}

#[test]
fn pow_mod_tower_multiplies_exponents() {
    let a: u128 = 0x1234_5678_9ABC;
    let b: u128 = 0xFEDC_BA98_7654_3210;
    assert_eq!(pow_mod(pow_mod(5, a), b), pow_mod(5, a * b));
    assert_eq!(pow_mod(pow_mod(5, a), b), pow_mod(pow_mod(5, b), a));
}

#[test]
fn pow_mod_sum_adds_exponents() {
    let a: u128 = 0x1234_5678_9ABC_DEF0_1122;
    let b: u128 = 0x0FED_CBA9_8765_4321;
    assert_eq!(mul_mod(pow_mod(17, a), pow_mod(17, b)), pow_mod(17, a + b));
}

#[test]
fn mix64_known_values() {
    assert_eq!(mix64(0), 16294208416658607535);
    assert_eq!(mix64(1), 10451216379200822465);
    assert_eq!(mix64(0x0123_4567_89AB_CDEF), 1547611027431991965);
    assert_eq!(mix64(u64::MAX), 16490336266968443936);
}

#[test]
fn absorb_of_nothing_is_the_state() {
    assert_eq!(absorb(5, b""), 5);
    assert_eq!(absorb(u64::MAX, &[]), u64::MAX);
}

#[test]
fn absorb_takes_the_bytes_in_order() {
    assert_eq!(absorb(5, b"ab"), 12373360619794565726);
    assert_eq!(absorb(5, b"ab"), absorb(absorb(5, b"a"), b"b"));
    assert_ne!(absorb(5, b"ab"), absorb(5, b"ba"));
}

#[test]
fn keyed_digest_known_values() {
    assert_eq!(keyed_digest(7, b""), 13309476754707697221);
    assert_eq!(keyed_digest(7, b"abc"), 17526418900298421509);
    let all: Vec<u8> = (0..=255u8).collect();
    assert_eq!(keyed_digest(0, &all), 12687234370837875091);
}

#[test]
fn keyed_digest_depends_on_key_and_length() {
    assert_ne!(keyed_digest(7, b"abc"), keyed_digest(8, b"abc"));
    assert_ne!(keyed_digest(7, b"abc"), keyed_digest(7, b"abc\0"));
    assert_ne!(keyed_digest(7, b""), keyed_digest(7, b"\0"));
}

#[test]
fn derived_keys_known_values() {
    assert_eq!(stream_key(1), 1468813297918176691);
    assert_eq!(tag_key(1), 13412921512444173728);
    assert_ne!(stream_key(1), tag_key(1));
}

#[test]
fn keystream_known_values() {
    assert_eq!(xor_keystream(1, 2, b"abc"), vec![246, 209, 217]);
    assert_eq!(xor_keystream(1, 2, &[0u8; 5]), vec![151, 179, 186, 141, 145]);
    assert_eq!(xor_keystream(1, 2, b""), Vec::<u8>::new());
}

#[test]
fn keystream_twice_is_the_identity() {
    let text = b"the quick brown fox jumps over the lazy dog";
    let masked = xor_keystream(99, 100, text);
    assert_ne!(masked.as_slice(), text.as_slice());
    assert_eq!(xor_keystream(99, 100, &masked), text.to_vec());
}

#[test]
fn authentication_tag_known_values() {
    assert_eq!(authentication_tag(1, 2, 3, b"abc"), 13340153441364137511);
    assert_eq!(authentication_tag(1, 2, 3, b""), 9338170624117407428);
}

#[test]
fn authentication_tag_binds_every_input() {
    let tag = authentication_tag(1, 2, 3, b"abc");
    assert_ne!(tag, authentication_tag(9, 2, 3, b"abc"));
    assert_ne!(tag, authentication_tag(1, 9, 3, b"abc"));
    assert_ne!(tag, authentication_tag(1, 2, 9, b"abc"));
    assert_ne!(tag, authentication_tag(1, 2, 3, b"abd"));
}

#[test]
fn payload_layout_is_nonce_body_tag() {
    let payload = seal_payload(5, 6, 7, b"hi");
    assert_eq!(
        payload,
        vec![7, 0, 0, 0, 0, 0, 0, 0, 18, 149, 144, 182, 249, 0, 107, 168, 166, 14]
    );
    assert_eq!(payload.len(), 2 + 16);
}

#[test]
fn payload_opens_under_the_same_secret() {
    let payload = seal_payload(5, 6, 7, b"hi");
    assert_eq!(open_payload(5, 6, &payload), Some(b"hi".to_vec()));
    let empty = seal_payload(5, 6, 7, b"");
    assert_eq!(empty.len(), 16);
    assert_eq!(open_payload(5, 6, &empty), Some(Vec::new()));
}

#[test]
fn payload_is_refused_under_another_secret_or_share() {
    let payload = seal_payload(5, 6, 7, b"hi");
    assert_eq!(open_payload(4, 6, &payload), None);
    assert_eq!(open_payload(5, 7, &payload), None);
}

#[test]
fn payload_shorter_than_its_overhead_is_refused() {
    assert_eq!(open_payload(5, 6, &[]), None);
    assert_eq!(open_payload(5, 6, &[0u8; 15]), None);
}
