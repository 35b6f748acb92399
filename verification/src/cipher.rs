//! The symmetric half of the hybrid scheme: two keys derived from a shared
//! secret, a counter-mode stream, and an authentication tag.
//!
//! A sealed payload is the nonce (eight bytes), the masked plaintext, and the
//! tag (eight bytes). The tag covers the nonce, the sender's share of the key
//! exchange, and the masked plaintext.
use crate::encoding::{differ_in_one_byte, lemma_window_after_change};
use crate::hash::{
    keyed_digest, keyed_digest_spec, lemma_digest_keeps_keys_apart, lemma_digest_single_change,
    lemma_mix64_injective, lemma_xor_keeps_apart, mix64, mix64_spec,
};
use vstd::bytes::{
    lemma_auto_spec_u64_to_from_le_bytes, spec_u64_from_le_bytes, spec_u64_to_le_bytes,
    u64_from_le_bytes, u64_to_le_bytes,
};
use vstd::prelude::*;
use vstd::slice::slice_subrange;

verus! {

/// The length of the nonce that opens a sealed payload, in bytes.
pub const NONCE_LEN: usize = 8;

/// The length of the tag that closes a sealed payload, in bytes.
pub const TAG_LEN: usize = 8;

/// The bytes that a sealed payload holds beyond the plaintext.
pub const OVERHEAD: usize = 16;

/// Separates the stream key from the other uses of a shared secret.
pub const STREAM_LABEL: u64 = 0x5354_5245_414D_5F4B;

/// Separates the tag key from the other uses of a shared secret.
pub const TAG_LABEL: u64 = 0x5441_475F_4B45_595F;

/// The key of the stream, derived from the shared secret.
pub open spec fn stream_key_spec(shared: u64) -> u64 {
    mix64_spec(shared ^ STREAM_LABEL)
}

/// The key of the tag, derived from the shared secret.
pub open spec fn tag_key_spec(shared: u64) -> u64 {
    mix64_spec(shared ^ TAG_LABEL)
}

/// The byte of the stream at position `index`.
pub open spec fn keystream_byte(key: u64, nonce: u64, index: int) -> u8 {
    (mix64_spec(mix64_spec(key ^ nonce) ^ (index as u64)) & 0xff) as u8
}

/// `data` with the stream laid over it, byte by byte.
pub open spec fn apply_keystream(key: u64, nonce: u64, data: Seq<u8>) -> Seq<u8> {
    Seq::new(data.len(), |i: int| data[i] ^ keystream_byte(key, nonce, i))
}

/// The tag of a masked plaintext `body`, bound to the nonce and to the
/// sender's share.
pub open spec fn tag_spec(key: u64, nonce: u64, share: u64, body: Seq<u8>) -> u64 {
    keyed_digest_spec(mix64_spec(mix64_spec(key ^ nonce) ^ share), body)
}

/// The sealed payload: nonce, masked plaintext, tag.
#[verifier::opaque]
pub open spec fn seal_payload_spec(shared: u64, share: u64, nonce: u64, plaintext: Seq<u8>) -> Seq<
    u8,
> {
    let body = apply_keystream(stream_key_spec(shared), nonce, plaintext);
    let tag = tag_spec(tag_key_spec(shared), nonce, share, body);
    spec_u64_to_le_bytes(nonce) + body + spec_u64_to_le_bytes(tag)
}

/// The nonce that opens a sealed payload.
pub open spec fn payload_nonce(payload: Seq<u8>) -> u64 {
    spec_u64_from_le_bytes(payload.subrange(0, NONCE_LEN as int))
}

/// The masked plaintext inside a sealed payload.
pub open spec fn payload_body(payload: Seq<u8>) -> Seq<u8> {
    payload.subrange(NONCE_LEN as int, payload.len() - TAG_LEN)
}

/// The tag that closes a sealed payload.
pub open spec fn payload_tag(payload: Seq<u8>) -> u64 {
    spec_u64_from_le_bytes(payload.subrange(payload.len() - TAG_LEN, payload.len() as int))
}

/// The plaintext of a sealed payload, if the payload is long enough to hold
/// a nonce and a tag and its tag is the one that the shared secret gives.
#[verifier::opaque]
pub open spec fn open_payload_spec(shared: u64, share: u64, payload: Seq<u8>) -> Option<Seq<u8>> {
    if payload.len() < OVERHEAD {
        None
    } else if payload_tag(payload) != tag_spec(
        tag_key_spec(shared),
        payload_nonce(payload),
        share,
        payload_body(payload),
    ) {
        None
    } else {
        Some(
            apply_keystream(stream_key_spec(shared), payload_nonce(payload), payload_body(payload)),
        )
    }
}

/// Laying the same stream over a text twice gives the text back.
pub proof fn lemma_keystream_involution(key: u64, nonce: u64, data: Seq<u8>)
    ensures
        apply_keystream(key, nonce, apply_keystream(key, nonce, data)) == data,
{
    let once = apply_keystream(key, nonce, data);
    let twice = apply_keystream(key, nonce, once);
    assert forall|i: int| 0 <= i < data.len() implies twice[i] == data[i] by {
        let d = data[i];
        let k = keystream_byte(key, nonce, i);
        assert((d ^ k) ^ k == d) by (bit_vector);
    }
    assert(twice =~= data);
}

/// The three parts of a sealed payload are read back as they were written.
pub proof fn lemma_payload_parts(shared: u64, share: u64, nonce: u64, plaintext: Seq<u8>)
    ensures
        ({
            let payload = seal_payload_spec(shared, share, nonce, plaintext);
            let body = apply_keystream(stream_key_spec(shared), nonce, plaintext);
            &&& payload.len() == plaintext.len() + OVERHEAD
            &&& payload_nonce(payload) == nonce
            &&& payload_body(payload) == body
            &&& payload_tag(payload) == tag_spec(tag_key_spec(shared), nonce, share, body)
        }),
{
    reveal(seal_payload_spec);
    lemma_auto_spec_u64_to_from_le_bytes();
    let payload = seal_payload_spec(shared, share, nonce, plaintext);
    let body = apply_keystream(stream_key_spec(shared), nonce, plaintext);
    let tag = tag_spec(tag_key_spec(shared), nonce, share, body);
    assert(payload.subrange(0, NONCE_LEN as int) =~= spec_u64_to_le_bytes(nonce));
    assert(payload_body(payload) =~= body);
    assert(payload.subrange(payload.len() - TAG_LEN, payload.len() as int) =~= spec_u64_to_le_bytes(
        tag,
    ));
}

/// Opening a sealed payload under the secret it was sealed with gives the
/// plaintext back.
pub proof fn lemma_open_sealed_payload(shared: u64, share: u64, nonce: u64, plaintext: Seq<u8>)
    ensures
        open_payload_spec(shared, share, seal_payload_spec(shared, share, nonce, plaintext))
            == Some(plaintext),
{
    reveal(open_payload_spec);
    lemma_payload_parts(shared, share, nonce, plaintext);
    lemma_keystream_involution(stream_key_spec(shared), nonce, plaintext);
}

/// The tag tells two nonces apart, whatever the rest.
pub proof fn lemma_tag_keeps_nonces_apart(
    key: u64,
    first: u64,
    second: u64,
    share: u64,
    body: Seq<u8>,
)
    requires
        first != second,
    ensures
        tag_spec(key, first, share, body) != tag_spec(key, second, share, body),
{
    lemma_xor_keeps_apart(first, second, key);
    if mix64_spec(key ^ first) == mix64_spec(key ^ second) {
        lemma_mix64_injective(key ^ first, key ^ second);
    }
    let a = mix64_spec(key ^ first);
    let b = mix64_spec(key ^ second);
    lemma_xor_keeps_apart(a, b, share);
    if mix64_spec(a ^ share) == mix64_spec(b ^ share) {
        lemma_mix64_injective(a ^ share, b ^ share);
    }
    lemma_digest_keeps_keys_apart(mix64_spec(a ^ share), mix64_spec(b ^ share), body);
}

/// A sealed payload in which one byte was changed, wherever it lies, is
/// refused under the secret it was sealed with.
pub proof fn lemma_tampered_payload_refused(
    shared: u64,
    share: u64,
    nonce: u64,
    plaintext: Seq<u8>,
    tampered: Seq<u8>,
    at: int,
)
    requires
        differ_in_one_byte(seal_payload_spec(shared, share, nonce, plaintext), tampered, at),
    ensures
        open_payload_spec(shared, share, tampered).is_none(),
{
    reveal(open_payload_spec);
    let payload = seal_payload_spec(shared, share, nonce, plaintext);
    let key = tag_key_spec(shared);
    let body = payload_body(payload);
    let len = payload.len() as int;
    lemma_payload_parts(shared, share, nonce, plaintext);
    lemma_window_after_change(payload, tampered, at, 0);
    lemma_window_after_change(payload, tampered, at, len - TAG_LEN);
    if at < NONCE_LEN {
        assert(payload_body(tampered) =~= body);
        lemma_tag_keeps_nonces_apart(key, nonce, payload_nonce(tampered), share, body);
    } else if at < len - TAG_LEN {
        let changed = payload_body(tampered);
        assert(differ_in_one_byte(body, changed, at - NONCE_LEN));
        lemma_digest_single_change(
            mix64_spec(mix64_spec(key ^ nonce) ^ share),
            body,
            changed,
            at - NONCE_LEN,
        );
    } else {
        assert(payload_body(tampered) =~= body);
    }
}

/// Derives the key of the stream from the shared secret.
pub fn stream_key(shared: u64) -> (key: u64)
    ensures
        key == stream_key_spec(shared),
{
    mix64(shared ^ STREAM_LABEL)
}

/// Derives the key of the tag from the shared secret.
pub fn tag_key(shared: u64) -> (key: u64)
    ensures
        key == tag_key_spec(shared),
{
    mix64(shared ^ TAG_LABEL)
}

/// Lays the stream over `data`.
pub fn xor_keystream(key: u64, nonce: u64, data: &[u8]) -> (out: Vec<u8>)
    ensures
        out@ == apply_keystream(key, nonce, data@),
{
    let pad: u64 = mix64(key ^ nonce);
    let mut out: Vec<u8> = Vec::new();
    let mut i: usize = 0;
    while i < data.len()
        invariant
            i <= data@.len(),
            out@.len() == i,
            pad == mix64_spec(key ^ nonce),
            forall|j: int| 0 <= j < i ==> out@[j] == data@[j] ^ keystream_byte(key, nonce, j),
        decreases data@.len() - i,
    {
        let word: u64 = mix64(pad ^ (i as u64));
        assert(word & 0xff < 256) by (bit_vector);
        let mask: u8 = (word & 0xff) as u8;
        out.push(data[i] ^ mask);
        i = i + 1;
    }
    proof {
        assert(out@ =~= apply_keystream(key, nonce, data@));
    }
    out
}

/// Computes the tag of a masked plaintext.
pub fn authentication_tag(key: u64, nonce: u64, share: u64, body: &[u8]) -> (tag: u64)
    ensures
        tag == tag_spec(key, nonce, share, body@),
{
    keyed_digest(mix64(mix64(key ^ nonce) ^ share), body)
}

/// Seals `plaintext` under the shared secret.
pub fn seal_payload(shared: u64, share: u64, nonce: u64, plaintext: &[u8]) -> (payload: Vec<u8>)
    ensures
        payload@ == seal_payload_spec(shared, share, nonce, plaintext@),
{
    let body = xor_keystream(stream_key(shared), nonce, plaintext);
    let tag = authentication_tag(tag_key(shared), nonce, share, body.as_slice());
    let mut payload = u64_to_le_bytes(nonce);
    payload.extend_from_slice(body.as_slice());
    let closing = u64_to_le_bytes(tag);
    payload.extend_from_slice(closing.as_slice());
    proof {
        reveal(seal_payload_spec);
    }
    payload
}

/// Opens a sealed payload under the shared secret.
///
/// The tag is compared as one word, so the time of a refusal does not tell
/// where the tags differ.
pub fn open_payload(shared: u64, share: u64, payload: &[u8]) -> (r: Option<Vec<u8>>)
    ensures
        match open_payload_spec(shared, share, payload@) {
            Some(plaintext) => r matches Some(v) && v@ == plaintext,
            None => r.is_none(),
        },
{
    proof {
        reveal(open_payload_spec);
    }
    let len = payload.len();
    if len < OVERHEAD {
        return None;
    }
    let nonce = u64_from_le_bytes(slice_subrange(payload, 0, NONCE_LEN));
    let body = slice_subrange(payload, NONCE_LEN, len - TAG_LEN);
    let tag = u64_from_le_bytes(slice_subrange(payload, len - TAG_LEN, len));
    let expected = authentication_tag(tag_key(shared), nonce, share, body);
    if tag != expected {
        return None;
    }
    Some(xor_keystream(stream_key(shared), nonce, body))
}

} // verus!
