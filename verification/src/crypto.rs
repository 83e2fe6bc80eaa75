//! Cryptographic primitives of the decoder.
//!
//! Two outside primitives are used and both are fixed: XChaCha20-Poly1305
//! for confidentiality and integrity, and strict Ed25519 verification for
//! the authenticity of what the broadcaster sends.  Verus does not look
//! into either: their results are named, and the functions that make the
//! calls state them over those names.
use vstd::prelude::*;
use chacha20poly1305::aead::AeadInPlace;
use chacha20poly1305::{KeyInit, XChaCha20Poly1305};
use ed25519_dalek::{Signature, VerifyingKey};

verus! {

pub const CHACHA20_KEY_BYTES: usize = 32;

pub const XCHACHA20_NONCE_BYTES: usize = 24;

pub const XCHACHA20_TAG_BYTES: usize = 16;

pub type Chacha20Key = [u8; 32];

pub type XChacha20Nonce = [u8; 24];

pub type XChacha20Tag = [u8; 16];

pub const ED25519_SIGNATURE_BYTES: usize = 64;

pub type Ed25519PubKey = [u8; 32];

pub type Ed25519Signature = [u8; 64];

/// Length of what precedes every encrypted body: nonce, tag and signature.
pub const ENCODER_CRYPTO_HEADER_LEN: usize = XCHACHA20_NONCE_BYTES + XCHACHA20_TAG_BYTES
    + ED25519_SIGNATURE_BYTES;

/// Key under which subscription updates for this decoder are encrypted.
/// Development provisioning: a deployment embeds its own key here.
pub const DECODER_KEY: Chacha20Key = [
    0x64, 0x65, 0x63, 0x6f, 0x64, 0x65, 0x72, 0x2d, 0x6b, 0x65, 0x79, 0x2d, 0x30, 0x30, 0x30, 0x31,
    0x10, 0x21, 0x32, 0x43, 0x54, 0x65, 0x76, 0x87, 0x98, 0xa9, 0xba, 0xcb, 0xdc, 0xed, 0xfe, 0x0f,
];

/// Key of the emergency channel, channel 0.
/// Development provisioning: a deployment embeds its own key here.
pub const CHANNEL_0_KEY: Chacha20Key = [
    0x63, 0x68, 0x61, 0x6e, 0x6e, 0x65, 0x6c, 0x2d, 0x7a, 0x65, 0x72, 0x6f, 0x2d, 0x6b, 0x65, 0x79,
    0x01, 0x12, 0x23, 0x34, 0x45, 0x56, 0x67, 0x78, 0x89, 0x9a, 0xab, 0xbc, 0xcd, 0xde, 0xef, 0xf0,
];

/// Key under which the subscription table is encrypted in flash.
/// Development provisioning: a deployment embeds its own key here.
pub const FLASH_KEY: Chacha20Key = [
    0x66, 0x6c, 0x61, 0x73, 0x68, 0x2d, 0x73, 0x74, 0x6f, 0x72, 0x61, 0x67, 0x65, 0x2d, 0x6b, 0x31,
    0xf1, 0xe2, 0xd3, 0xc4, 0xb5, 0xa6, 0x97, 0x88, 0x79, 0x6a, 0x5b, 0x4c, 0x3d, 0x2e, 0x1f, 0x00,
];

/// The broadcaster's Ed25519 public key in compressed form.
/// Development provisioning: a deployment embeds its own key here.
pub const VERIFYING_KEY_COMPRESSED: Ed25519PubKey = [
    0xd7, 0x5a, 0x98, 0x01, 0x82, 0xb1, 0x0a, 0xb7, 0xd5, 0x4b, 0xfe, 0xd3, 0xc9, 0x64, 0x07, 0x3a,
    0x0e, 0xe1, 0x72, 0xf3, 0xda, 0xa6, 0x23, 0x25, 0xaf, 0x02, 0x1a, 0x68, 0xf7, 0x07, 0x51, 0x1a,
];

/// What XChaCha20-Poly1305 makes of a plaintext under a 32-byte key and a
/// 24-byte nonce, with no associated data: the ciphertext and the tag.
pub uninterp spec fn aead_seal(key: Seq<u8>, nonce: Seq<u8>, plaintext: Seq<u8>) -> (Seq<u8>, Seq<u8>);

/// What XChaCha20-Poly1305 recovers from a ciphertext and its detached tag,
/// with no associated data: the plaintext, or nothing where the tag does
/// not authenticate the ciphertext.
pub uninterp spec fn aead_open(key: Seq<u8>, nonce: Seq<u8>, tag: Seq<u8>, ciphertext: Seq<u8>) -> Option<Seq<u8>>;

/// Whether strict Ed25519 verification accepts the signature for the
/// message under the compressed public key.
pub uninterp spec fn signature_valid(public_key: Seq<u8>, message: Seq<u8>, signature: Seq<u8>) -> bool;

/// Whether the compressed public key decodes to a curve point that is not
/// of small order.
pub uninterp spec fn verifying_key_usable(public_key: Seq<u8>) -> bool;

/// The cipher refuses a buffer of this many 64-byte blocks or more.
pub open spec fn aead_fits(len: nat) -> bool {
    len / 64 < 0xFFFF_FFFF
}

/// `XChaCha20Poly1305::encrypt_in_place_detached` with no associated data.
///
/// Claimed of it: it fails only on a buffer too long for the cipher; the
/// buffer then holds the ciphertext, as long as the plaintext was; and
/// opening that ciphertext with the returned tag under the same key and
/// nonce gives the plaintext back.
#[verifier::external_body]
fn aead_encrypt_in_place(key: &Chacha20Key, nonce: &XChacha20Nonce, buffer: &mut [u8]) -> (sealed:
    Result<XChacha20Tag, ()>)
    ensures
        sealed is Ok <==> aead_fits(old(buffer)@.len()),
        final(buffer)@.len() == old(buffer)@.len(),
        sealed matches Ok(tag) ==> (final(buffer)@, tag@) == aead_seal(key@, nonce@, old(buffer)@),
        sealed matches Ok(tag) ==> aead_open(key@, nonce@, tag@, final(buffer)@) == Some(
            old(buffer)@,
        ),
{
    match XChaCha20Poly1305::new(key.into()).encrypt_in_place_detached(nonce.into(), &[], buffer) {
        Ok(tag) => Ok(tag.into()),
        Err(_) => Err(()),
    }
}

/// `XChaCha20Poly1305::decrypt_in_place_detached` with no associated data.
///
/// Claimed of it: it succeeds exactly where the tag authenticates the
/// ciphertext, and the buffer then holds the plaintext.  Of a buffer after
/// a failure only the length is stated.
#[verifier::external_body]
fn aead_decrypt_in_place(
    key: &Chacha20Key,
    nonce: &XChacha20Nonce,
    tag: &XChacha20Tag,
    buffer: &mut [u8],
) -> (opened: bool)
    ensures
        opened <==> aead_open(key@, nonce@, tag@, old(buffer)@) is Some,
        opened ==> Some(final(buffer)@) == aead_open(key@, nonce@, tag@, old(buffer)@),
        final(buffer)@.len() == old(buffer)@.len(),
{
    XChaCha20Poly1305::new(key.into()).decrypt_in_place_detached(
        nonce.into(),
        &[],
        buffer,
        tag.into(),
    ).is_ok()
}

/// `VerifyingKey::verify_strict`, on a key and a signature given as bytes.
/// A key that does not decode verifies nothing.
#[verifier::external_body]
fn ed25519_verify_strict(public_key: &Ed25519PubKey, message: &[u8], signature: &Ed25519Signature) -> (valid:
    bool)
    ensures
        valid == signature_valid(public_key@, message@, signature@),
{
    match VerifyingKey::from_bytes(public_key) {
        Ok(key) => key.verify_strict(message, &Signature::from_bytes(signature)).is_ok(),
        Err(_) => false,
    }
}

/// `VerifyingKey::is_weak`, on a key given as bytes.  A key that does not
/// decode is not usable either.
#[verifier::external_body]
fn ed25519_key_usable(public_key: &Ed25519PubKey) -> (usable: bool)
    ensures
        usable == verifying_key_usable(public_key@),
{
    match VerifyingKey::from_bytes(public_key) {
        Ok(key) => !key.is_weak(),
        Err(_) => false,
    }
}

/// What a packet body opens to under `key`: the plaintext, provided that
/// the tag authenticates the ciphertext and that the broadcaster's
/// signature, taken over the plaintext, verifies.  Decryption comes first
/// and verification second.
pub open spec fn packet_open(
    key: Seq<u8>,
    nonce: Seq<u8>,
    tag: Seq<u8>,
    signature: Seq<u8>,
    body: Seq<u8>,
) -> Option<Seq<u8>> {
    match aead_open(key, nonce, tag, body) {
        Some(plaintext) => if signature_valid(VERIFYING_KEY_COMPRESSED@, plaintext, signature) {
            Some(plaintext)
        } else {
            None
        },
        None => None,
    }
}

/// Checks at boot that the embedded verification key can be used: that it
/// decodes and is not a weak key.  A decoder whose key fails this check
/// accepts no frame at all.
pub fn bootstrap_crypto() -> (ready: bool)
    ensures
        ready == verifying_key_usable(VERIFYING_KEY_COMPRESSED@),
{
    ed25519_key_usable(&VERIFYING_KEY_COMPRESSED)
}

/// Decrypts an encrypted packet in place and verifies the broadcaster's
/// signature over the plaintext.  After a failure the body must not be
/// used.
pub fn decrypt_encrypted_packet(
    key: &Chacha20Key,
    nonce: &XChacha20Nonce,
    tag: &XChacha20Tag,
    signature: &Ed25519Signature,
    body: &mut [u8],
) -> (opened: Result<(), ()>)
    ensures
        opened is Ok <==> packet_open(key@, nonce@, tag@, signature@, old(body)@) is Some,
        opened is Ok ==> Some(final(body)@) == packet_open(
            key@,
            nonce@,
            tag@,
            signature@,
            old(body)@,
        ),
        final(body)@.len() == old(body)@.len(),
{
    if !aead_decrypt_in_place(key, nonce, tag, body) {
        return Err(());
    }
    if ed25519_verify_strict(&VERIFYING_KEY_COMPRESSED, body, signature) {
        Ok(())
    } else {
        Err(())
    }
}

/// Decrypts a packet addressed to this decoder, in place.
pub fn decrypt_decoder_encrypted_packet(
    nonce: &XChacha20Nonce,
    tag: &XChacha20Tag,
    signature: &Ed25519Signature,
    body: &mut [u8],
) -> (opened: Result<(), ()>)
    ensures
        opened is Ok <==> packet_open(DECODER_KEY@, nonce@, tag@, signature@, old(body)@) is Some,
        opened is Ok ==> Some(final(body)@) == packet_open(
            DECODER_KEY@,
            nonce@,
            tag@,
            signature@,
            old(body)@,
        ),
        final(body)@.len() == old(body)@.len(),
{
    decrypt_encrypted_packet(&DECODER_KEY, nonce, tag, signature, body)
}

/// Encrypts the flash buffer in place under the persistence key and the
/// given nonce, which must be fresh.  Returns the nonce and the tag.
pub fn encrypt_flash_buffer(buffer: &mut [u8], nonce: XChacha20Nonce) -> (sealed: Result<
    (XChacha20Nonce, XChacha20Tag),
    (),
>)
    ensures
        sealed is Ok <==> aead_fits(old(buffer)@.len()),
        final(buffer)@.len() == old(buffer)@.len(),
        sealed matches Ok((used, tag)) ==> {
            &&& used == nonce
            &&& (final(buffer)@, tag@) == aead_seal(FLASH_KEY@, nonce@, old(buffer)@)
            &&& aead_open(FLASH_KEY@, nonce@, tag@, final(buffer)@) == Some(old(buffer)@)
        },
{
    match aead_encrypt_in_place(&FLASH_KEY, &nonce, buffer) {
        Ok(tag) => Ok((nonce, tag)),
        Err(_) => Err(()),
    }
}

/// Decrypts the flash buffer in place under the persistence key.
pub fn decrypt_flash_buffer(buffer: &mut [u8], nonce: &XChacha20Nonce, tag: &XChacha20Tag) -> (opened:
    Result<(), ()>)
    ensures
        opened is Ok <==> aead_open(FLASH_KEY@, nonce@, tag@, old(buffer)@) is Some,
        opened is Ok ==> Some(final(buffer)@) == aead_open(
            FLASH_KEY@,
            nonce@,
            tag@,
            old(buffer)@,
        ),
        final(buffer)@.len() == old(buffer)@.len(),
{
    if aead_decrypt_in_place(&FLASH_KEY, nonce, tag, buffer) {
        Ok(())
    } else {
        Err(())
    }
}

} // verus!
